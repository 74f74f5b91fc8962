use c8::observer::Publisher;

#[derive(PartialEq, Eq, Hash, Copy, Clone, Debug)]
enum Event {
    Event1,
    Event2,
}

fn event_1_listener(event: &Event) {
    println!("Event1 listener");
    assert_eq!(*event, Event::Event1);
}

fn event_2_listener(event: &Event) {
    println!("Event1 listener");
    assert_eq!(*event, Event::Event2);
}

fn must_not_be_called(_event: &Event) {
    panic!("an unsubscribed listener was called");
}

#[test]
fn test_observer() {
    let mut publisher: Publisher<Event, fn(&Event)> = Publisher::default();

    publisher.subscribe(Event::Event1, event_1_listener);
    publisher.subscribe(Event::Event2, event_2_listener);

    publisher.notify(Event::Event1);

    publisher.notify(Event::Event2);

    publisher.unsubscribe(Event::Event1, event_1_listener);

    // Nothing should print
    publisher.notify(Event::Event1);
}

#[test]
fn unsubscribed_listener_is_not_called() {
    let mut publisher: Publisher<Event, fn(&Event)> = Publisher::default();
    publisher.subscribe(Event::Event1, must_not_be_called);
    publisher.subscribe(Event::Event1, event_1_listener);
    publisher.unsubscribe(Event::Event1, must_not_be_called);
    publisher.notify(Event::Event1);
}

#[test]
fn listeners_of_other_events_are_not_called() {
    let mut publisher: Publisher<Event, fn(&Event)> = Publisher::default();
    publisher.subscribe(Event::Event2, must_not_be_called);
    publisher.notify(Event::Event1);
}
