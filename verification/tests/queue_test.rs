use xfiles::message::Message;
use xfiles::queue::{MessageQueue, MessageSink};

/// A sink that takes every message, or refuses them after `limit`.
struct Collector {
    taken: Vec<Message>,
    limit: usize,
}

impl MessageSink for Collector {
    fn send(&mut self, msg: Message) -> Result<(), Message> {
        if self.taken.len() >= self.limit {
            return Err(msg);
        }
        self.taken.push(msg);
        Ok(())
    }
}

fn msg(kind: &str) -> Message {
    Message::new("test".to_string(), "/net/target".to_string(), kind.to_string())
}

#[test]
fn test_queue_enqueue_and_drain() {
    let mut queue = MessageQueue::new();
    let m = msg("test_msg");
    queue.enqueue("target-agent", m.clone());

    assert_eq!(queue.stats().len(), 1);
    assert_eq!(queue.stats()[0].1, 1);

    let mut sink = Collector { taken: Vec::new(), limit: usize::MAX };
    let delivered = queue.drain_to("target-agent", &mut sink);
    assert_eq!(delivered, 1);

    if let Some(received) = sink.taken.first() {
        assert_eq!(received.id, m.id);
    } else {
        panic!("expected message in channel");
    }

    assert!(queue.stats().is_empty());
}

#[test]
fn test_queue_prune_old() {
    let mut queue = MessageQueue::new();
    queue.enqueue("target-agent", msg("test_msg"));

    // With 0 max_age_secs, everything should be pruned
    queue.prune_old(0);
    assert!(queue.stats().is_empty());
}

#[test]
fn drain_keeps_order_and_stops_at_refusal() {
    let mut queue = MessageQueue::new();
    let a = msg("a");
    let b = msg("b");
    let c = msg("c");
    queue.enqueue_at("agent", a.clone(), 0);
    queue.enqueue_at("agent", b.clone(), 1);
    queue.enqueue_at("agent", c.clone(), 2);

    let mut sink = Collector { taken: Vec::new(), limit: 2 };
    assert_eq!(queue.drain_to("agent", &mut sink), 2);
    assert_eq!(sink.taken[0].id, a.id);
    assert_eq!(sink.taken[1].id, b.id);
    // The refused message stays at the front.
    assert_eq!(queue.stats(), vec![("agent".to_string(), 1)]);

    let mut rest = Collector { taken: Vec::new(), limit: usize::MAX };
    assert_eq!(queue.drain_to("agent", &mut rest), 1);
    assert_eq!(rest.taken[0].id, c.id);
    assert!(queue.stats().is_empty());
}

#[test]
fn draining_an_unknown_agent_delivers_nothing() {
    let mut queue = MessageQueue::new();
    let mut sink = Collector { taken: Vec::new(), limit: usize::MAX };
    assert_eq!(queue.drain_to("nobody", &mut sink), 0);
    assert!(sink.taken.is_empty());
}

#[test]
fn prune_keeps_young_messages_by_whole_seconds() {
    let mut queue = MessageQueue::new();
    queue.enqueue_at("agent", msg("old"), 0);
    queue.enqueue_at("agent", msg("young"), 9_500);
    queue.enqueue_at("other", msg("old"), 1_000);
    // At 10.999 s: the first is 10 whole seconds old, the second 1, the
    // third 9.
    queue.prune_old_at(10, 10_999);
    let mut stats = queue.stats();
    stats.sort();
    assert_eq!(stats, vec![("agent".to_string(), 1), ("other".to_string(), 1)]);
    queue.prune_old_at(5, 10_999);
    assert_eq!(queue.stats(), vec![("agent".to_string(), 1)]);
}
