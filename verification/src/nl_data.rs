//! What the wireless helper reports, and how it is decoded.

use vstd::prelude::*;

verus! {

/// The signal strength that the helper reports where it has none.
pub const NO_SIGNAL: i32 = -1;

/// The record of the wireless helper, copied out of its memory: the name of
/// the network, `None` where the helper gave a null pointer, and the signal
/// strength, `NO_SIGNAL` where there is none.
#[derive(Debug, PartialEq, Eq)]
pub struct NlData {
    pub essid: Option<String>,
    pub signal: i32,
}

/// What is known of the wireless network: at least one of the two is present.
#[derive(Debug, PartialEq, Eq)]
pub struct Data {
    pub essid: Option<String>,
    pub signal: Option<i32>,
}

/// The signal strength that `signal` stands for.
pub open spec fn decoded_signal(signal: i32) -> Option<i32> {
    if signal == NO_SIGNAL {
        None
    } else {
        Some(signal)
    }
}

/// What the record `nl_data` says: nothing where it holds neither a name nor
/// a signal strength, else what it holds.
pub open spec fn decoded(nl_data: NlData) -> Option<Data> {
    if nl_data.essid is None && nl_data.signal == NO_SIGNAL {
        None
    } else {
        Some(Data { essid: nl_data.essid, signal: decoded_signal(nl_data.signal) })
    }
}

/// What the record `nl_data` of the wireless helper says.
pub fn data(nl_data: NlData) -> (data: Option<Data>)
    ensures
        data == decoded(nl_data),
{
    let signal = if nl_data.signal == NO_SIGNAL {
        None
    } else {
        Some(nl_data.signal)
    };
    let essid = nl_data.essid;
    if signal.is_none() && essid.is_none() {
        None
    } else {
        Some(Data { signal, essid })
    }
}

/// A record that `data` gives holds a name or a signal strength, and its
/// signal strength is never `NO_SIGNAL`.
pub proof fn lemma_data_holds_something(nl_data: NlData)
    ensures
        decoded(nl_data) matches Some(data) ==> (data.essid is Some || data.signal is Some)
            && data.signal != Some(NO_SIGNAL),
        decoded(nl_data) is None <==> nl_data.essid is None && nl_data.signal == NO_SIGNAL,
{
}

} // verus!
