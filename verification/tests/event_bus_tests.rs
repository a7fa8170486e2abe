use std::cell::RefCell;
use std::rc::Rc;

use event_bus::bus::BusError;
use event_bus::bus::EventBus;
use event_bus::bus::Listener;
use event_bus::config::Config;
use event_bus::config::ConfigEntry;
use event_bus::config::ConfigValue;
use event_bus::payload::EventPayload;
use serde_json::Value;

struct TestListener {
    name: &'static str,
    fail: bool,
    log: Rc<RefCell<Vec<String>>>,
}

impl Listener for TestListener {
    fn on_event(&self, event: &EventPayload) -> Result<(), String> {
        self.log
            .borrow_mut()
            .push(format!("{}:{}:{}", self.name, event.event_type, event.data));
        if self.fail {
            Err(format!("{} failed", self.name))
        } else {
            Ok(())
        }
    }
}

fn listener(name: &'static str, log: &Rc<RefCell<Vec<String>>>) -> TestListener {
    TestListener {
        name,
        fail: false,
        log: Rc::clone(log),
    }
}

fn failing_listener(name: &'static str, log: &Rc<RefCell<Vec<String>>>) -> TestListener {
    TestListener {
        name,
        fail: true,
        log: Rc::clone(log),
    }
}

fn payload(topic: &str, json: &str) -> EventPayload {
    EventPayload {
        event_type: topic.to_string(),
        data: serde_json::from_str::<Value>(json).unwrap(),
    }
}

#[test]
fn scenario_orders_created() {
    let log: Rc<RefCell<Vec<String>>> = Rc::new(RefCell::new(Vec::new()));
    let mut bus: EventBus<TestListener> = EventBus::new(Config::empty());

    bus.subscribe("orders.created".to_string(), listener("A", &log))
        .unwrap();
    bus.subscribe("orders.created".to_string(), listener("B", &log))
        .unwrap();

    let report = bus.publish("orders.created", payload("orders.created", "{\"id\": 42}"));
    assert!(report.is_empty());
    assert_eq!(
        *log.borrow(),
        vec![
            "A:orders.created:{\"id\":42}".to_string(),
            "B:orders.created:{\"id\":42}".to_string(),
        ]
    );

    bus.unsubscribe("orders.created");
    let report = bus.publish("orders.created", payload("orders.created", "{\"id\": 42}"));
    assert!(report.is_empty());
    assert_eq!(log.borrow().len(), 2);
}

#[test]
fn publish_to_unknown_topic_is_a_noop() {
    let bus: EventBus<TestListener> = EventBus::new(Config::empty());
    let report = bus.publish("nobody.listens", payload("nobody.listens", "null"));
    assert!(report.is_empty());
}

#[test]
fn unsubscribe_then_publish_invokes_no_listener() {
    let log: Rc<RefCell<Vec<String>>> = Rc::new(RefCell::new(Vec::new()));
    let mut bus: EventBus<TestListener> = EventBus::new(Config::empty());

    bus.subscribe("metrics".to_string(), listener("A", &log))
        .unwrap();
    assert_eq!(bus.listener_count("metrics"), 1);

    bus.unsubscribe("metrics");
    assert_eq!(bus.listener_count("metrics"), 0);

    let report = bus.publish("metrics", payload("metrics", "1"));
    assert!(report.is_empty());
    assert!(log.borrow().is_empty());
}

#[test]
fn unsubscribing_an_unknown_topic_is_a_noop() {
    let log: Rc<RefCell<Vec<String>>> = Rc::new(RefCell::new(Vec::new()));
    let mut bus: EventBus<TestListener> = EventBus::new(Config::empty());
    bus.subscribe("kept".to_string(), listener("A", &log))
        .unwrap();

    bus.unsubscribe("never.seen");
    assert_eq!(bus.listener_count("kept"), 1);
}

#[test]
fn failing_listener_does_not_stop_the_fanout() {
    let log: Rc<RefCell<Vec<String>>> = Rc::new(RefCell::new(Vec::new()));
    let mut bus: EventBus<TestListener> = EventBus::new(Config::empty());

    bus.subscribe("jobs".to_string(), listener("A", &log))
        .unwrap();
    bus.subscribe("jobs".to_string(), failing_listener("B", &log))
        .unwrap();
    bus.subscribe("jobs".to_string(), listener("C", &log))
        .unwrap();

    let report = bus.publish("jobs", payload("jobs", "7"));

    assert_eq!(log.borrow().len(), 3);
    assert_eq!(log.borrow()[0], "A:jobs:7");
    assert_eq!(log.borrow()[1], "B:jobs:7");
    assert_eq!(log.borrow()[2], "C:jobs:7");

    assert_eq!(report.len(), 1);
    assert_eq!(report[0].topic, "jobs");
    assert_eq!(report[0].listener_index, 1);
    assert_eq!(report[0].message, "B failed");
}

#[test]
fn fail_fast_stops_at_the_first_failure() {
    let log: Rc<RefCell<Vec<String>>> = Rc::new(RefCell::new(Vec::new()));
    let entries = vec![ConfigEntry {
        key: "fail_fast".to_string(),
        value: ConfigValue::Flag(true),
    }];
    let mut bus: EventBus<TestListener> = EventBus::new(Config::new(entries));

    bus.subscribe("jobs".to_string(), failing_listener("A", &log))
        .unwrap();
    bus.subscribe("jobs".to_string(), failing_listener("B", &log))
        .unwrap();
    bus.subscribe("jobs".to_string(), listener("C", &log))
        .unwrap();

    let report = bus.publish("jobs", payload("jobs", "7"));

    assert_eq!(log.borrow().len(), 1);
    assert_eq!(log.borrow()[0], "A:jobs:7");
    assert_eq!(report.len(), 1);
    assert_eq!(report[0].listener_index, 0);
    assert_eq!(report[0].message, "A failed");
}

#[test]
fn without_fail_fast_every_failure_is_reported() {
    let log: Rc<RefCell<Vec<String>>> = Rc::new(RefCell::new(Vec::new()));
    let mut bus: EventBus<TestListener> = EventBus::new(Config::empty());

    bus.subscribe("jobs".to_string(), failing_listener("A", &log))
        .unwrap();
    bus.subscribe("jobs".to_string(), failing_listener("B", &log))
        .unwrap();
    bus.subscribe("jobs".to_string(), listener("C", &log))
        .unwrap();

    let report = bus.publish("jobs", payload("jobs", "7"));

    assert_eq!(log.borrow().len(), 3);
    assert_eq!(report.len(), 2);
    assert_eq!(report[0].listener_index, 0);
    assert_eq!(report[0].message, "A failed");
    assert_eq!(report[1].listener_index, 1);
    assert_eq!(report[1].message, "B failed");
}

#[test]
fn empty_topic_is_rejected_and_registry_unchanged() {
    let log: Rc<RefCell<Vec<String>>> = Rc::new(RefCell::new(Vec::new()));
    let mut bus: EventBus<TestListener> = EventBus::new(Config::empty());
    bus.subscribe("kept".to_string(), listener("A", &log))
        .unwrap();

    let r = bus.subscribe("".to_string(), listener("B", &log));
    assert_eq!(r.unwrap_err(), BusError::InvalidTopic);

    assert_eq!(bus.listener_count("kept"), 1);
    assert_eq!(bus.listener_count(""), 0);
}

#[test]
fn many_subscribes_all_take_effect() {
    let log: Rc<RefCell<Vec<String>>> = Rc::new(RefCell::new(Vec::new()));
    let mut bus: EventBus<TestListener> = EventBus::new(Config::empty());
    let names = ["L0", "L1", "L2", "L3", "L4"];

    for (k, name) in names.iter().enumerate() {
        let handle = bus
            .subscribe("load".to_string(), listener(name, &log))
            .unwrap();
        assert_eq!(handle.topic(), "load");
        assert_eq!(handle.position(), k);
    }

    assert_eq!(bus.listener_count("load"), 5);
    let report = bus.publish("load", payload("load", "true"));
    assert!(report.is_empty());
    assert_eq!(
        *log.borrow(),
        vec![
            "L0:load:true".to_string(),
            "L1:load:true".to_string(),
            "L2:load:true".to_string(),
            "L3:load:true".to_string(),
            "L4:load:true".to_string(),
        ]
    );
}

#[test]
fn topics_are_dispatched_independently() {
    let log: Rc<RefCell<Vec<String>>> = Rc::new(RefCell::new(Vec::new()));
    let mut bus: EventBus<TestListener> = EventBus::new(Config::empty());

    bus.subscribe("alpha".to_string(), listener("A", &log))
        .unwrap();
    bus.subscribe("beta".to_string(), listener("B", &log))
        .unwrap();

    let report = bus.publish("alpha", payload("alpha", "1"));
    assert!(report.is_empty());
    assert_eq!(*log.borrow(), vec!["A:alpha:1".to_string()]);

    bus.unsubscribe("alpha");
    assert_eq!(bus.listener_count("beta"), 1);
}

#[test]
fn config_lookup_returns_the_last_value_for_a_key() {
    let entries = vec![
        ConfigEntry {
            key: "mode".to_string(),
            value: ConfigValue::Text("loose".to_string()),
        },
        ConfigEntry {
            key: "retries".to_string(),
            value: ConfigValue::Number(3),
        },
        ConfigEntry {
            key: "mode".to_string(),
            value: ConfigValue::Text("strict".to_string()),
        },
    ];
    let config = Config::new(entries);

    match config.get("mode") {
        Some(ConfigValue::Text(s)) => assert_eq!(s, "strict"),
        other => panic!("unexpected lookup result: {:?}", other.is_some()),
    }
    match config.get("retries") {
        Some(ConfigValue::Number(n)) => assert_eq!(*n, 3),
        _ => panic!("retries should be a number"),
    }
    assert!(config.get("absent").is_none());
}

#[test]
fn config_flag_falls_back_to_the_default() {
    let entries = vec![
        ConfigEntry {
            key: "fail_fast".to_string(),
            value: ConfigValue::Flag(true),
        },
        ConfigEntry {
            key: "mode".to_string(),
            value: ConfigValue::Text("strict".to_string()),
        },
    ];
    let config = Config::new(entries);

    assert!(config.flag("fail_fast", false));
    assert!(!config.flag("missing", false));
    assert!(config.flag("missing", true));
    assert!(!config.flag("mode", false));
}

#[test]
fn config_can_carry_structured_values() {
    let nested = serde_json::from_str::<Value>("{\"limit\": 10}").unwrap();
    let entries = vec![ConfigEntry {
        key: "dispatch".to_string(),
        value: ConfigValue::Structured(nested.clone()),
    }];
    let config = Config::new(entries);

    match config.get("dispatch") {
        Some(ConfigValue::Structured(v)) => assert_eq!(*v, nested),
        _ => panic!("dispatch should be structured"),
    }
}

#[test]
fn empty_config_answers_no_lookup() {
    let config = Config::empty();
    assert!(config.get("anything").is_none());
    assert!(!config.flag("anything", false));
}
