//! Notification records handed to the event sink.
//!
//! Every successful mint or ownership change appends a `Transfer` record to
//! the market's log, and every successful purchase additionally appends a
//! `Trade` record.  The log is the model of the platform's notification
//! sink: delivering the records elsewhere is outside this library.

use vstd::prelude::*;

verus! {

/// A notification record, as appended to the market's event log.
#[derive(Debug, PartialEq, Eq)]
pub enum Event {
    /// An ownership change; `from` is absent for a mint.
    Transfer { from: Option<u64>, to: Option<u64>, id: Vec<u8> },
    /// A completed sale.
    Trade { seller: u64, buyer: u64, id: Vec<u8>, price: u128 },
}

/// The mathematical reading of a notification record.
pub enum EventView {
    Transfer { from: Option<u64>, to: Option<u64>, id: Seq<u8> },
    Trade { seller: u64, buyer: u64, id: Seq<u8>, price: u128 },
}

impl View for Event {
    type V = EventView;

    open spec fn view(&self) -> EventView {
        match self {
            Event::Transfer { from, to, id } => EventView::Transfer {
                from: *from,
                to: *to,
                id: id@,
            },
            Event::Trade { seller, buyer, id, price } => EventView::Trade {
                seller: *seller,
                buyer: *buyer,
                id: id@,
                price: *price,
            },
        }
    }
}

/// The mathematical reading of a whole event log.
pub open spec fn log_view(events: Seq<Event>) -> Seq<EventView> {
    events.map_values(|e: Event| e@)
}

} // verus!
