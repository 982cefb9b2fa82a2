use naina::event_bus::{
    Event, EventBus, EventBusConfig, EventBusError, EventHandler, EventIds, SubscriptionId,
};
use std::collections::BTreeMap;
use std::sync::{Arc, Mutex};

#[derive(Clone)]
struct TestHandler {
    id: usize,
    events: Arc<Mutex<Vec<Event>>>,
    call_order: Option<Arc<Mutex<Vec<usize>>>>,
    should_fail: bool,
}

impl TestHandler {
    fn new(id: usize) -> (Self, Arc<Mutex<Vec<Event>>>) {
        let events = Arc::new(Mutex::new(Vec::new()));
        (
            Self {
                id,
                events: Arc::clone(&events),
                call_order: None,
                should_fail: false,
            },
            events,
        )
    }

    fn ordered(id: usize, order: Arc<Mutex<Vec<usize>>>) -> (Self, Arc<Mutex<Vec<Event>>>) {
        let events = Arc::new(Mutex::new(Vec::new()));
        (
            Self {
                id,
                events: Arc::clone(&events),
                call_order: Some(order),
                should_fail: false,
            },
            events,
        )
    }

    fn failing(id: usize) -> (Self, Arc<Mutex<Vec<Event>>>) {
        let events = Arc::new(Mutex::new(Vec::new()));
        (
            Self {
                id,
                events: Arc::clone(&events),
                call_order: None,
                should_fail: true,
            },
            events,
        )
    }
}

impl EventHandler for TestHandler {
    fn handle(&self, event: &Event) -> Result<(), EventBusError> {
        if self.should_fail {
            return Err(EventBusError::Handler {
                subscription_id: SubscriptionId(self.id as u64),
                message: format!("handler {id} failed", id = self.id),
            });
        }
        self.events.lock().unwrap().push(event.clone());
        if let Some(ref order) = self.call_order {
            order.lock().unwrap().push(self.id);
        }
        Ok(())
    }
}

#[test]
fn test_event_bus_instantiation() {
    let bus = EventBus::new(EventBusConfig);
    assert!(format!("{:?}", bus).contains("EventBus"));
}

#[test]
fn test_01_event_construction() {
    let mut ids = EventIds::new();
    let event = Event::new("system.boot", "kernel", &mut ids);
    assert_eq!(event.event_type(), "system.boot");
    assert_eq!(event.source(), "kernel");
    assert!(event.id().starts_with("evt_"));
}

#[test]
fn test_02_event_payload_construction() {
    let mut ids = EventIds::new();
    let mut payload = BTreeMap::new();
    payload.insert("status".to_string(), "ok".to_string());
    let event = Event::new("system.boot", "kernel", &mut ids).with_payload(payload.clone());
    assert_eq!(event.payload(), &payload);
}

#[test]
fn test_03_event_metadata_accessors() {
    let mut ids = EventIds::new();
    let before = std::time::SystemTime::now();
    let event = Event::new("test.topic", "test.source", &mut ids);
    let after = std::time::SystemTime::now();

    assert!(event.timestamp() >= before);
    assert!(event.timestamp() <= after);
    assert_eq!(event.event_type(), "test.topic");
    assert_eq!(event.source(), "test.source");
}

#[test]
fn test_04_eventbus_construction() {
    let mut ids = EventIds::new();
    let bus = EventBus::new(EventBusConfig);
    let event = Event::new("test", "src", &mut ids);
    assert!(bus.publish(&event).is_ok());
}

#[test]
fn test_05_subscribe_returns_unique_ids() {
    let mut bus = EventBus::new(EventBusConfig);
    let (h1, _) = TestHandler::new(1);
    let (h2, _) = TestHandler::new(2);

    let id1 = bus.subscribe("topic", Box::new(h1)).unwrap();
    let id2 = bus.subscribe("topic", Box::new(h2)).unwrap();

    assert_ne!(id1, id2);
}

#[test]
fn test_06_single_subscriber_receives_matching_event() {
    let mut ids = EventIds::new();
    let mut bus = EventBus::new(EventBusConfig);
    let (handler, events) = TestHandler::new(1);
    bus.subscribe("topic.a", Box::new(handler)).unwrap();

    let event = Event::new("topic.a", "source.x", &mut ids);
    bus.publish(&event).unwrap();

    let rec = events.lock().unwrap();
    assert_eq!(rec.len(), 1);
    assert_eq!(rec[0].event_type(), "topic.a");
}

#[test]
fn test_07_subscriber_does_not_receive_unrelated_event() {
    let mut ids = EventIds::new();
    let mut bus = EventBus::new(EventBusConfig);
    let (handler, events) = TestHandler::new(1);
    bus.subscribe("topic.a", Box::new(handler)).unwrap();

    let event = Event::new("topic.b", "source.x", &mut ids);
    bus.publish(&event).unwrap();

    assert!(events.lock().unwrap().is_empty());
}

#[test]
fn test_08_multiple_subscribers_receive_events() {
    let mut ids = EventIds::new();
    let mut bus = EventBus::new(EventBusConfig);
    let (h1, e1) = TestHandler::new(1);
    let (h2, e2) = TestHandler::new(2);

    bus.subscribe("topic", Box::new(h1)).unwrap();
    bus.subscribe("topic", Box::new(h2)).unwrap();

    let event = Event::new("topic", "src", &mut ids);
    bus.publish(&event).unwrap();

    assert_eq!(e1.lock().unwrap().len(), 1);
    assert_eq!(e2.lock().unwrap().len(), 1);
}

#[test]
fn test_09_registration_order_is_preserved() {
    let mut ids = EventIds::new();
    let mut bus = EventBus::new(EventBusConfig);
    let order = Arc::new(Mutex::new(Vec::new()));

    let (h1, _) = TestHandler::ordered(10, Arc::clone(&order));
    let (h2, _) = TestHandler::ordered(20, Arc::clone(&order));
    let (h3, _) = TestHandler::ordered(30, Arc::clone(&order));

    bus.subscribe("topic", Box::new(h1)).unwrap();
    bus.subscribe("topic", Box::new(h2)).unwrap();
    bus.subscribe("topic", Box::new(h3)).unwrap();

    let event = Event::new("topic", "src", &mut ids);
    bus.publish(&event).unwrap();

    assert_eq!(*order.lock().unwrap(), vec![10, 20, 30]);
}

#[test]
fn test_10_unsubscribe_removes_subscriber() {
    let mut ids = EventIds::new();
    let mut bus = EventBus::new(EventBusConfig);
    let (h1, e1) = TestHandler::new(1);

    let sub_id = bus.subscribe("topic", Box::new(h1)).unwrap();
    let res = bus.unsubscribe(sub_id);

    assert!(res.unwrap());

    let event = Event::new("topic", "src", &mut ids);
    bus.publish(&event).unwrap();
    assert!(e1.lock().unwrap().is_empty());
}

#[test]
fn test_11_unsubscribe_unknown_id_returns_false() {
    let mut bus = EventBus::new(EventBusConfig);
    let res = bus.unsubscribe(SubscriptionId(9999));
    assert!(!res.unwrap());
}

#[test]
fn test_12_remaining_subscriber_order_survives_unsubscribe() {
    let mut ids = EventIds::new();
    let mut bus = EventBus::new(EventBusConfig);
    let order = Arc::new(Mutex::new(Vec::new()));

    let (h1, _) = TestHandler::ordered(1, Arc::clone(&order));
    let (h2, _) = TestHandler::ordered(2, Arc::clone(&order));
    let (h3, _) = TestHandler::ordered(3, Arc::clone(&order));

    let _id1 = bus.subscribe("topic", Box::new(h1)).unwrap();
    let id2 = bus.subscribe("topic", Box::new(h2)).unwrap();
    let _id3 = bus.subscribe("topic", Box::new(h3)).unwrap();

    bus.unsubscribe(id2).unwrap();

    let event = Event::new("topic", "src", &mut ids);
    bus.publish(&event).unwrap();

    assert_eq!(*order.lock().unwrap(), vec![1, 3]);
}

#[test]
fn test_13_empty_bus_publish_succeeds() {
    let mut ids = EventIds::new();
    let bus = EventBus::new(EventBusConfig);
    let event = Event::new("unhandled.topic", "src", &mut ids);
    assert!(bus.publish(&event).is_ok());
}

#[test]
fn test_14_handler_error_stops_dispatch() {
    let mut ids = EventIds::new();
    let mut bus = EventBus::new(EventBusConfig);
    let (h_fail, _) = TestHandler::failing(1);
    let (h2, e2) = TestHandler::new(2);

    bus.subscribe("topic", Box::new(h_fail)).unwrap();
    bus.subscribe("topic", Box::new(h2)).unwrap();

    let event = Event::new("topic", "src", &mut ids);
    let res = bus.publish(&event);

    assert!(res.is_err());
    assert!(e2.lock().unwrap().is_empty());
}

#[test]
fn test_15_first_handler_error_is_returned() {
    let mut ids = EventIds::new();
    let mut bus = EventBus::new(EventBusConfig);
    let (h_fail, _) = TestHandler::failing(42);

    bus.subscribe("topic", Box::new(h_fail)).unwrap();

    let event = Event::new("topic", "src", &mut ids);
    let res = bus.publish(&event);

    match res {
        Err(EventBusError::Handler {
            subscription_id, ..
        }) => {
            assert_eq!(subscription_id, SubscriptionId(42));
        }
        _ => panic!("Expected Handler error"),
    }
}

#[test]
fn test_16_later_handlers_are_not_invoked_after_failure() {
    let mut ids = EventIds::new();
    let mut bus = EventBus::new(EventBusConfig);
    let order = Arc::new(Mutex::new(Vec::new()));

    let (h1, _) = TestHandler::ordered(1, Arc::clone(&order));
    let (h_fail, _) = TestHandler::failing(2);
    let (h3, _) = TestHandler::ordered(3, Arc::clone(&order));

    bus.subscribe("topic", Box::new(h1)).unwrap();
    bus.subscribe("topic", Box::new(h_fail)).unwrap();
    bus.subscribe("topic", Box::new(h3)).unwrap();

    let event = Event::new("topic", "src", &mut ids);
    let res = bus.publish(&event);

    assert!(res.is_err());
    assert_eq!(*order.lock().unwrap(), vec![1]);
}

#[test]
fn test_17_different_event_types_remain_isolated() {
    let mut ids = EventIds::new();
    let mut bus = EventBus::new(EventBusConfig);
    let (h1, e1) = TestHandler::new(1);
    let (h2, e2) = TestHandler::new(2);

    bus.subscribe("topic.1", Box::new(h1)).unwrap();
    bus.subscribe("topic.2", Box::new(h2)).unwrap();

    let event1 = Event::new("topic.1", "src", &mut ids);
    bus.publish(&event1).unwrap();

    assert_eq!(e1.lock().unwrap().len(), 1);
    assert_eq!(e2.lock().unwrap().len(), 0);
}

#[test]
fn test_20_no_external_dependencies_beyond_logging() {
    let mut ids = EventIds::new();
    let bus = EventBus::new(EventBusConfig);
    assert!(bus.publish(&Event::new("a", "b", &mut ids)).is_ok());
}

#[test]
fn event_bus_error_text_names_subscription() {
    let err = EventBusError::Handler {
        subscription_id: SubscriptionId(7),
        message: "boom".to_string(),
    };
    assert_eq!(err.to_string(), "Handler error (subscription SubscriptionId(7)): boom");
    let lock = EventBusError::LockError { message: "poisoned".to_string() };
    assert_eq!(lock.to_string(), "Lock error: poisoned");
}

#[test]
fn subscription_ids_increase_from_one() {
    let mut bus = EventBus::new(EventBusConfig);
    let (h1, _) = TestHandler::new(1);
    let (h2, _) = TestHandler::new(2);
    assert_eq!(bus.subscribe("a", Box::new(h1)).unwrap(), SubscriptionId(1));
    assert_eq!(bus.subscribe("b", Box::new(h2)).unwrap(), SubscriptionId(2));
    assert!(bus.unsubscribe(SubscriptionId(1)).unwrap());
    assert!(!bus.unsubscribe(SubscriptionId(1)).unwrap());
}

#[test]
fn events_from_one_numbering_get_distinct_ids() {
    let mut ids = EventIds::new();
    let first = Event::new("topic", "src", &mut ids);
    let second = Event::new("topic", "src", &mut ids);
    assert_eq!(first.id(), "evt_1");
    assert_eq!(second.id(), "evt_2");
    assert_ne!(first.id(), second.id());
}

#[test]
fn event_bus_debug_shows_only_its_configuration() {
    let mut bus = EventBus::new(EventBusConfig);
    let (h, _) = TestHandler::new(1);
    bus.subscribe("topic", Box::new(h)).unwrap();
    assert_eq!(format!("{:?}", bus), "EventBus { config: EventBusConfig }");
}
