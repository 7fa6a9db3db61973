use geese::event::EventChannel;
use geese::event::EventComponentDef;
use geese::event::EventEntryDef;
use geese::event::EngineEvent;
use geese::event::EventHandler;
use std::cell::RefCell;
use std::rc::Rc;

struct FnHandler<F>(F);

impl<E, F: Fn(&E)> EventHandler<E> for FnHandler<F> {
    fn handle(&self, event: &E) {
        (self.0)(event)
    }
}

#[test]
fn default_component_has_empty_entries() {
    let def = EventComponentDef::default();
    assert!(def.server_enabled);
    assert!(def.client_enabled);
    assert!(def.entries.is_empty());
}

#[test]
fn entries_keep_trigger_and_response() {
    let mut def = EventComponentDef::default();
    def.entries.push(EventEntryDef { trigger: "on_enter".into(), response: "open_door".into() });
    let copy = def.clone();
    assert_eq!(copy.entries[0].trigger, "on_enter");
    assert_eq!(copy.entries[0].response, "open_door");
    assert!(geese::event::default_true());
}

#[test]
fn channel_delivers_in_order_to_every_subscriber_then_empties() {
    let seen: Rc<RefCell<Vec<(u8, String)>>> = Rc::new(RefCell::new(Vec::new()));
    let mut ch: EventChannel<String> = EventChannel::new();
    let a = seen.clone();
    ch.subscribe(Box::new(FnHandler(move |e: &String| a.borrow_mut().push((1, e.clone())))));
    let b = seen.clone();
    ch.subscribe(Box::new(FnHandler(move |e: &String| b.borrow_mut().push((2, e.clone())))));
    ch.publish("hello".to_string());
    ch.publish("world".to_string());
    assert_eq!(ch.pending(), 2);
    assert_eq!(ch.subscriber_count(), 2);
    ch.flush();
    assert_eq!(ch.pending(), 0);
    assert_eq!(
        *seen.borrow(),
        vec![(1, "hello".to_string()), (2, "hello".to_string()), (1, "world".to_string()), (2, "world".to_string())]
    );
    ch.flush();
    assert_eq!(seen.borrow().len(), 4);
}

#[test]
fn channel_without_subscribers_drops_events_on_flush() {
    let mut ch: EventChannel<EngineEvent> = EventChannel::new();
    ch.publish(EngineEvent::ConfigChanged);
    ch.publish(EngineEvent::WindowResize { width: 800, height: 600 });
    ch.flush();
    assert_eq!(ch.pending(), 0);
    let count = Rc::new(RefCell::new(0usize));
    let c = count.clone();
    ch.subscribe(Box::new(FnHandler(move |_: &EngineEvent| *c.borrow_mut() += 1)));
    ch.flush();
    assert_eq!(*count.borrow(), 0);
}
