use framing::event::{Event, EventFactory, LogEntry, LogEntryType};

#[test]
fn mod_aaaaaa() {
    let evt_fac = EventFactory::new(2255001);

    let evt = evt_fac.create(112, 539);
    println!("{}", evt.to_string());
    println!("{}", evt.to_debug_string());
    assert_eq!(1, 1);
}

#[test]
fn event_code_is_padded_with_zeros() {
    let event = Event::new(1, 42, 7, 3);
    assert_eq!(event.to_string(), "01-0000042-07");
    assert_eq!(event.to_debug_string(), "01-0000042-07-03");
}

#[test]
fn event_code_keeps_long_numbers() {
    let event = Event::new(112, 2255001, 539, 100);
    assert_eq!(event.to_string(), "112-2255001-539");
    assert_eq!(event.to_debug_string(), "112-2255001-539-100");
    let wide = Event::new(65535, 4294967295, 0, 0);
    assert_eq!(wide.to_string(), "65535-4294967295-00");
    assert_eq!(wide.to_debug_string(), "65535-4294967295-00-00");
}

#[test]
fn log_entry_lines() {
    let entry = LogEntry {
        timestamp: 17,
        log_type: LogEntryType::Coming,
        event: Event::new(2, 5, 9, 1),
    };
    assert_eq!(entry.to_string(), "17: Coming 02-0000005-09");
    assert_eq!(entry.to_debug_string(), "17: Coming 02-0000005-09-01");
    assert_eq!(LogEntryType::Going.to_string(), "Going");
    assert_eq!(LogEntryType::Coming.to_string(), "Coming");
}

#[test]
fn factory_counts_seconds_from_its_start() {
    let factory = EventFactory::starting_at(2255001, 1_000);
    let entry = factory.create_at(1_042, 112, 539);
    assert_eq!(entry.timestamp, 42);
    assert_eq!(entry.log_type, LogEntryType::Going);
    assert_eq!(entry.event.evt_type, 112);
    assert_eq!(entry.event.product, 2255001);
    assert_eq!(entry.event.detail_number, 539);
    assert_eq!(entry.event.meta, 0);
    assert_eq!(entry.to_string(), "42: Going 112-2255001-539");
    assert_eq!(entry.to_debug_string(), "42: Going 112-2255001-539-00");
}

#[test]
fn factory_keeps_the_lower_bits_of_the_difference() {
    let factory = EventFactory::starting_at(1, 1_000);
    assert_eq!(factory.create_at(999, 0, 0).timestamp, u32::MAX);
    assert_eq!(factory.create_at(1_000 + (1i64 << 32) + 5, 0, 0).timestamp, 5);
    let extreme = EventFactory::starting_at(1, i64::MIN);
    assert_eq!(extreme.create_at(i64::MAX, 0, 0).timestamp, u32::MAX);
    assert_eq!(extreme.create_at(i64::MIN, 0, 0).timestamp, 0);
}

#[test]
fn factory_reads_the_clock() {
    let factory = EventFactory::new(7);
    let entry = factory.create(1, 2);
    // Made within the same few seconds.
    assert!(entry.timestamp < 60);
    assert_eq!(entry.event.product, 7);
    assert_eq!(entry.log_type, LogEntryType::Going);
    assert_eq!(entry.event.meta, 0);
}
