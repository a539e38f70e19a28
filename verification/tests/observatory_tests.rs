use llm_memory_graph::observatory::kafka::{BatchBuffer, KafkaConfig};
use llm_memory_graph::observatory::EmissionStats;
use llm_memory_graph::observatory::streaming::ReplayBuffer;
use llm_memory_graph::observatory::publisher::{EventPublisher, InMemoryPublisher, NoOpPublisher};
use llm_memory_graph::observatory::metrics::MemoryGraphMetrics;
use llm_memory_graph::storage::{CacheStats, SerializationFormat, Serializer};

#[test]
fn test_metrics_creation() {
    let metrics = MemoryGraphMetrics::new();
    let snapshot = metrics.totals();

    assert_eq!(snapshot.nodes_created, 0);
    assert_eq!(snapshot.edges_created, 0);
    assert_eq!(snapshot.prompts_submitted, 0);
}

#[test]
fn test_metrics_recording() {
    let mut metrics = MemoryGraphMetrics::new();

    metrics.record_node_created();
    metrics.record_node_created();
    metrics.record_edge_created();
    metrics.record_prompt_submitted();

    let snapshot = metrics.totals();
    assert_eq!(snapshot.nodes_created, 2);
    assert_eq!(snapshot.edges_created, 1);
    assert_eq!(snapshot.prompts_submitted, 1);
}

#[test]
fn test_latency_tracking() {
    let mut metrics = MemoryGraphMetrics::new();

    metrics.record_write_latency_us(1000);
    metrics.record_write_latency_us(2000);
    metrics.record_write_latency_us(3000);

    let t = metrics.totals();
    let avg_write_latency_ms = t.total_write_latency_us as f64 / t.write_count as f64 / 1000.0;
    assert_eq!(avg_write_latency_ms, 2.0);
}

#[test]
fn test_metrics_reset() {
    let mut metrics = MemoryGraphMetrics::new();

    metrics.record_node_created();
    metrics.record_edge_created();
    metrics.record_prompt_submitted();

    let snapshot_before = metrics.totals();
    assert_eq!(snapshot_before.nodes_created, 1);

    metrics.reset();

    let snapshot_after = metrics.totals();
    assert_eq!(snapshot_after.nodes_created, 0);
    assert_eq!(snapshot_after.edges_created, 0);
    assert_eq!(snapshot_after.prompts_submitted, 0);
}

#[test]
fn latency_sum_wraps() {
    let mut metrics = MemoryGraphMetrics::new();
    metrics.record_read_latency_us(u64::MAX);
    metrics.record_read_latency_us(2);
    let t = metrics.totals();
    assert_eq!(t.total_read_latency_us, 1);
    assert_eq!(t.read_count, 2);
}

#[test]
fn kafka_config_defaults_and_builders() {
    let c = KafkaConfig::default();
    assert_eq!(c.brokers, "localhost:9092");
    assert_eq!(c.topic, "llm-memory-graph-events");
    assert_eq!(c.compression_type, "snappy");
    let c = KafkaConfig::new("b:1".to_string(), "t".to_string())
        .with_batch_size(10)
        .with_batch_timeout_ms(20)
        .with_compression("zstd".to_string())
        .with_retry_config(7, 30);
    assert_eq!(c.batch_size, 10);
    assert_eq!(c.batch_timeout_ms, 20);
    assert_eq!(c.compression_type, "zstd");
    assert_eq!(c.max_retries, 7);
    assert_eq!(c.retry_delay_ms, 30);
    assert_eq!(c.message_timeout_ms, 5000);
}

#[test]
fn serializer_format() {
    assert_eq!(Serializer::default().format, SerializationFormat::MessagePack);
    assert_eq!(Serializer::new(SerializationFormat::Json).format, SerializationFormat::Json);
    let s = CacheStats::with_sizes(3, 4);
    assert_eq!(s.node_cache_size, 3);
    assert_eq!(s.edge_cache_hits, 0);
}

#[test]
fn test_batching_producer_auto_flush_on_size() {
    let config = KafkaConfig::default().with_batch_size(5);
    let mut buffer = BatchBuffer::new(config.batch_size);
    let mut sent: Vec<u32> = Vec::new();
    for i in 0..5u32 {
        if buffer.publish(i) {
            sent.extend(buffer.flush_buffer());
        }
    }
    assert_eq!(sent.len(), 5);
    assert_eq!(buffer.buffer_size(), 0);
}

#[test]
fn test_batching_producer_manual_flush() {
    let config = KafkaConfig::default().with_batch_size(100);
    let mut buffer = BatchBuffer::new(config.batch_size);
    for i in 0..3u32 {
        assert!(!buffer.publish(i));
    }
    assert_eq!(buffer.buffer_size(), 3);
    let sent = buffer.flush_buffer();
    assert_eq!(sent.len(), 3);
    assert_eq!(buffer.buffer_size(), 0);
}

#[test]
fn test_batching_producer_timeout_flush() {
    let config = KafkaConfig::default().with_batch_size(100).with_batch_timeout_ms(200);
    let mut buffer = BatchBuffer::new(config.batch_size);
    buffer.publish(1u32);
    buffer.publish(2u32);
    assert!(buffer.flush_on_timeout(100, config.batch_timeout_ms).is_empty());
    assert_eq!(buffer.buffer_size(), 2);
    assert_eq!(buffer.flush_on_timeout(200, config.batch_timeout_ms), vec![1, 2]);
    assert_eq!(buffer.buffer_size(), 0);
}

#[test]
fn test_multiple_batches() {
    let config = KafkaConfig::default().with_batch_size(10);
    let mut buffer = BatchBuffer::new(config.batch_size);
    let mut batches: Vec<Vec<u32>> = Vec::new();
    for i in 0..25u32 {
        if buffer.publish(i) {
            batches.push(buffer.flush_buffer());
        }
    }
    batches.push(buffer.flush_buffer());
    assert_eq!(batches.len(), 3);
    let sent: Vec<u32> = batches.concat();
    assert_eq!(sent, (0..25).collect::<Vec<u32>>());
    assert_eq!(batches[2].len(), 5);
}

#[test]
fn batch_buffer_flush_takes_oldest_first() {
    let mut buffer = BatchBuffer::new(2);
    for i in 0..5u32 {
        buffer.publish(i);
    }
    assert_eq!(buffer.flush_buffer(), vec![0, 1]);
    assert_eq!(buffer.pending, vec![2, 3, 4]);
    let mut empty: BatchBuffer<u32> = BatchBuffer::new(0);
    assert!(empty.publish(7));
    assert!(empty.flush_buffer().is_empty());
    assert_eq!(empty.buffer_size(), 1);
}

#[test]
fn test_emitter_creation() {
    let stats = EmissionStats::new().snapshot();
    assert_eq!(stats.events_submitted, 0);
    assert_eq!(stats.events_emitted, 0);
    assert_eq!(stats.events_failed, 0);
}

#[test]
fn test_emit_batch() {
    let mut stats = EmissionStats::new();
    stats.inc_submitted_by(3);
    stats.record_outcome(3, true);
    let snap = stats.snapshot();
    assert_eq!(snap.events_submitted, 3);
    assert_eq!(snap.events_emitted, 3);
    assert_eq!(snap.events_failed, 0);
}

#[test]
fn test_reset_stats() {
    let mut stats = EmissionStats::new();
    for _ in 0..5 {
        stats.inc_submitted();
        stats.inc_emitted();
    }
    stats.inc_submitted();
    stats.inc_failed();
    assert_eq!(stats.snapshot().events_submitted, 6);
    assert_eq!(stats.snapshot().events_failed, 1);
    stats.reset();
    let snap = stats.snapshot();
    assert_eq!(snap.events_submitted, 0);
    assert_eq!(snap.events_emitted, 0);
    assert_eq!(snap.events_failed, 0);
}

#[test]
fn emission_counters_wrap() {
    let mut stats = EmissionStats::new();
    stats.inc_failed_by(u64::MAX);
    stats.record_outcome(2, false);
    assert_eq!(stats.events_failed, 1);
}

#[test]
fn test_event_buffer() {
    let mut buffer = ReplayBuffer::new(10);
    for i in 0..5u32 {
        buffer.publish(i);
    }
    assert_eq!(buffer.get_buffered_events().len(), 5);
}

#[test]
fn test_buffer_trimming() {
    let mut buffer = ReplayBuffer::new(5);
    for i in 0..10u32 {
        buffer.publish(i);
    }
    let buffered = buffer.get_buffered_events();
    assert_eq!(buffered.len(), 5);
    assert_eq!(buffered[0], 5);
    assert_eq!(*buffered, vec![5, 6, 7, 8, 9]);
}

#[test]
fn test_clear_buffer() {
    let mut buffer = ReplayBuffer::new(100);
    for i in 0..5u32 {
        buffer.publish(i);
    }
    assert_eq!(buffer.get_buffered_events().len(), 5);
    buffer.clear_buffer();
    assert_eq!(buffer.get_buffered_events().len(), 0);
}

#[test]
fn replay_batch_keeps_newest() {
    let mut buffer = ReplayBuffer::new(3);
    buffer.publish(1u32);
    buffer.publish_batch(vec![2, 3, 4, 5]);
    assert_eq!(buffer.events, vec![3, 4, 5]);
    let mut none: ReplayBuffer<u32> = ReplayBuffer::new(0);
    none.publish(1);
    assert!(none.events.is_empty());
}

#[test]
fn test_in_memory_publisher() {
    let mut publisher = InMemoryPublisher::new();
    publisher.publish("node_created").unwrap();
    publisher.publish("query_executed").unwrap();
    assert_eq!(publisher.count(), 2);
    assert_eq!(*publisher.get_events(), vec!["node_created", "query_executed"]);
}

#[test]
fn test_in_memory_publisher_batch() {
    let mut publisher = InMemoryPublisher::new();
    publisher.publish(1u32).unwrap();
    publisher.publish_batch(vec![2, 3, 4]).unwrap();
    assert_eq!(*publisher.get_events(), vec![1, 2, 3, 4]);
}

#[test]
fn test_in_memory_publisher_clear() {
    let mut publisher = InMemoryPublisher::new();
    publisher.publish_batch(vec![1u32, 2]).unwrap();
    assert_eq!(publisher.count(), 2);
    publisher.clear();
    assert_eq!(publisher.count(), 0);
}

#[test]
fn test_noop_publisher() {
    let mut publisher = NoOpPublisher;
    assert!(EventPublisher::<u32>::publish(&mut publisher, 7).is_ok());
    assert!(EventPublisher::<u32>::publish_batch(&mut publisher, vec![1, 2]).is_ok());
    assert!(EventPublisher::<u32>::flush(&mut publisher).is_ok());
}

struct Failing {
    seen: Vec<u32>,
}

impl EventPublisher<u32> for Failing {
    fn publish(&mut self, event: u32) -> Result<(), llm_memory_graph::error::Error> {
        if event == 3 {
            return Err(llm_memory_graph::error::Error::Other("refused".to_string()));
        }
        self.seen.push(event);
        Ok(())
    }
}

#[test]
fn default_batch_stops_at_first_failure() {
    let mut publisher = Failing { seen: Vec::new() };
    assert!(publisher.publish_batch(vec![1, 2, 3, 4]).is_err());
    assert_eq!(publisher.seen, vec![1, 2]);
    let mut fresh = Failing { seen: Vec::new() };
    assert!(fresh.publish_batch(Vec::new()).is_ok());
    assert!(fresh.seen.is_empty());
}

#[test]
fn many_node_creations_are_all_counted() {
    let mut metrics = MemoryGraphMetrics::new();
    metrics.record_edge_created();
    for _ in 0..1000 {
        metrics.record_node_created();
    }
    let t = metrics.totals();
    assert_eq!(t.nodes_created, 1000);
    assert_eq!(t.edges_created, 1);
    assert_eq!(t.prompts_submitted, 0);
    assert_eq!(t.write_count, 0);
}
