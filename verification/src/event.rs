//! Events of a product and the log entries made of them.

use vstd::prelude::*;
use vstd::string::StringExecFns;
use crate::text::{decimal, padded_decimal, push_decimal, push_padded_decimal};

verus! {

pub type EventType = u16;

pub type DetailNumber = u16;

pub type ProductID = u32;

pub type MetaData = u16;

/// Something that happened to a product.
pub struct Event {
    pub evt_type: EventType,
    pub product: ProductID,
    pub detail_number: DetailNumber,
    pub meta: MetaData,
}

/// Whether an event set in or ended.
#[derive(Clone, Copy, Debug, PartialEq, Eq, Structural)]
pub enum LogEntryType {
    Coming,
    Going,
}

/// An event with the second at which it was logged, counted from the start
/// of its factory.
pub struct LogEntry {
    pub timestamp: u32,
    pub log_type: LogEntryType,
    pub event: Event,
}

/// Makes the log entries of one product.
pub struct EventFactory {
    product: ProductID,
    start_timestamp: i64,
}

/// A factory as a mathematical value.
pub struct EventFactoryView {
    pub product: ProductID,
    /// The second, counted from the start of 1970, at which the factory
    /// was made.
    pub start_timestamp: i64,
}

impl View for EventFactory {
    type V = EventFactoryView;

    closed spec fn view(&self) -> EventFactoryView {
        EventFactoryView { product: self.product, start_timestamp: self.start_timestamp }
    }
}

/// The seconds from `start` to `now` as a log entry holds them: the lower
/// 32 bits of the difference.
pub open spec fn seconds_since(start: i64, now: i64) -> u32 {
    (now - start) as u32
}

impl Event {
    /// An event.
    pub fn new(
        evt_type: EventType,
        product: ProductID,
        detail_number: DetailNumber,
        meta: MetaData,
    ) -> (event: Event)
        ensures
            event == (Event { evt_type, product, detail_number, meta }),
    {
        Event { evt_type, product, detail_number, meta }
    }

    /// The event's code: type, product and detail number with at least two,
    /// seven and two digits, joined by hyphens.
    pub open spec fn code(self) -> Seq<char> {
        padded_decimal(self.evt_type as nat, 2) + "-"@ + padded_decimal(self.product as nat, 7)
            + "-"@ + padded_decimal(self.detail_number as nat, 2)
    }

    /// The event's code followed by a hyphen and the meta data with at
    /// least two digits.
    pub open spec fn full_code(self) -> Seq<char> {
        self.code() + "-"@ + padded_decimal(self.meta as nat, 2)
    }

    /// The event's code.
    pub fn to_string(&self) -> (text: String)
        ensures
            text@ == self.code(),
    {
        let mut text = String::new();
        push_padded_decimal(&mut text, self.evt_type as u64, 2);
        text.append("-");
        push_padded_decimal(&mut text, self.product as u64, 7);
        text.append("-");
        push_padded_decimal(&mut text, self.detail_number as u64, 2);
        assert(text@ =~= self.code());
        text
    }

    /// The event's code with the meta data.
    pub fn to_debug_string(&self) -> (text: String)
        ensures
            text@ == self.full_code(),
    {
        let mut text = self.to_string();
        text.append("-");
        push_padded_decimal(&mut text, self.meta as u64, 2);
        text
    }
}

impl LogEntryType {
    /// The name of the kind of entry.
    pub open spec fn name(self) -> Seq<char> {
        match self {
            LogEntryType::Coming => "Coming"@,
            LogEntryType::Going => "Going"@,
        }
    }

    /// The name of the kind of entry.
    pub fn to_string(&self) -> (text: String)
        ensures
            text@ == self.name(),
    {
        match self {
            LogEntryType::Coming => String::from_str("Coming"),
            LogEntryType::Going => String::from_str("Going"),
        }
    }
}

impl LogEntry {
    /// What stands before the event in a line of the log: the second, a
    /// colon, and the kind of entry.
    pub open spec fn prefix(self) -> Seq<char> {
        decimal(self.timestamp as nat) + ": "@ + self.log_type.name() + " "@
    }

    /// The line of the log with the event's code.
    pub open spec fn line(self) -> Seq<char> {
        self.prefix() + self.event.code()
    }

    /// The line of the log with the event's code and meta data.
    pub open spec fn full_line(self) -> Seq<char> {
        self.prefix() + self.event.full_code()
    }

    /// What stands before the event in a line of the log.
    fn prefix_string(&self) -> (text: String)
        ensures
            text@ == self.prefix(),
    {
        let mut text = String::new();
        push_decimal(&mut text, self.timestamp as u64);
        text.append(": ");
        let kind = self.log_type.to_string();
        text.append(kind.as_str());
        text.append(" ");
        assert(text@ =~= self.prefix());
        text
    }

    /// The line of the log for this entry.
    pub fn to_string(&self) -> (text: String)
        ensures
            text@ == self.line(),
    {
        let mut text = self.prefix_string();
        let event = self.event.to_string();
        text.append(event.as_str());
        text
    }

    /// The line of the log for this entry, with the event's meta data.
    pub fn to_debug_string(&self) -> (text: String)
        ensures
            text@ == self.full_line(),
    {
        let mut text = self.prefix_string();
        let event = self.event.to_debug_string();
        text.append(event.as_str());
        text
    }
}

/// Reads the clock: the seconds since the start of 1970.
///
/// Not proved: the body calls `chrono::Utc::now` and `DateTime::timestamp`.
/// Nothing is claimed of the number, which differs from call to call. The
/// call does not return where the system clock stands before 1970.
#[verifier::external_body]
fn unix_time() -> i64 {
    chrono::Utc::now().timestamp()
}

impl EventFactoryView {
    /// The entry that the factory makes at the second `now`.
    pub open spec fn entry_at(
        self,
        now: i64,
        evt_type: EventType,
        detail_number: DetailNumber,
    ) -> LogEntry {
        LogEntry {
            timestamp: seconds_since(self.start_timestamp, now),
            log_type: LogEntryType::Going,
            event: Event { evt_type, product: self.product, detail_number, meta: 0 },
        }
    }
}

impl EventFactory {
    /// A factory for `product` that counts its seconds from now.
    pub fn new(product: ProductID) -> (factory: EventFactory)
        ensures
            factory@.product == product,
    {
        EventFactory::starting_at(product, unix_time())
    }

    /// A factory for `product` that counts its seconds from
    /// `start_timestamp`.
    pub fn starting_at(product: ProductID, start_timestamp: i64) -> (factory: EventFactory)
        ensures
            factory@ == (EventFactoryView { product, start_timestamp }),
    {
        EventFactory { product, start_timestamp }
    }

    /// An entry for an event of the factory's product that is logged now.
    pub fn create(&self, evt_type: EventType, detail_number: DetailNumber) -> (entry: LogEntry)
        ensures
            exists|now: i64| entry == #[trigger] self@.entry_at(now, evt_type, detail_number),
    {
        let now = unix_time();
        let entry = self.create_at(now, evt_type, detail_number);
        assert(entry == self@.entry_at(now, evt_type, detail_number));
        entry
    }

    /// An entry for an event of the factory's product that is logged at the
    /// second `now`.
    pub fn create_at(&self, now: i64, evt_type: EventType, detail_number: DetailNumber) -> (entry:
        LogEntry)
        ensures
            entry == self@.entry_at(now, evt_type, detail_number),
    {
        let start = self.start_timestamp;
        let diff_secs = now.wrapping_sub(start);
        let timestamp =   #[verifier::truncate]
        (diff_secs as u32);
        assert(timestamp == (now - start) as u32) by (bit_vector)
            requires
                timestamp == diff_secs as u32,
                diff_secs == if now - start > 0x7fff_ffff_ffff_ffff {
                    (now - start - 0x1_0000_0000_0000_0000) as i64
                } else if now - start < -0x8000_0000_0000_0000 {
                    (now - start + 0x1_0000_0000_0000_0000) as i64
                } else {
                    (now - start) as i64
                },
        ;
        LogEntry {
            timestamp,
            log_type: LogEntryType::Going,
            event: Event::new(evt_type, self.product, detail_number, 0),
        }
    }
}

} // verus!
