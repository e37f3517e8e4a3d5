//! The time a tunnelled connection took, split at its milestones.
//!
//! A clock is started when tunnel establishment begins and read three times:
//! when the upstream proxy is connected, when it has accepted the CONNECT,
//! and when the relay has ended. Each duration is measured from the
//! milestone before it.

use vstd::prelude::*;

verus! {

/// The three durations of one tunnelled connection, in milliseconds.
#[derive(Clone, Copy, Debug, PartialEq, Eq, Structural)]
pub struct TimingRecord {
    /// From the start to the TCP connection with the upstream proxy.
    pub connect_latency: u128,
    /// From there to the accepted CONNECT.
    pub auth_latency: u128,
    /// From there to the end of the relay.
    pub relay_duration: u128,
}

/// The three readings of the clock do not go back.
pub open spec fn monotone(connected: u128, authenticated: u128, closed: u128) -> bool {
    connected <= authenticated <= closed
}

/// The record that three readings of the clock amount to.
pub open spec fn record_of(connected: u128, authenticated: u128, closed: u128) -> TimingRecord
    recommends
        monotone(connected, authenticated, closed),
{
    TimingRecord {
        connect_latency: connected,
        auth_latency: (authenticated - connected) as u128,
        relay_duration: (closed - authenticated) as u128,
    }
}

impl TimingRecord {
    /// The whole time, as a number without bound.
    pub open spec fn spec_total(self) -> nat {
        (self.connect_latency + self.auth_latency + self.relay_duration) as nat
    }

    /// The whole time fits the machine's widest integer, as it does for
    /// every record made from readings of one clock.
    pub open spec fn wf(self) -> bool {
        self.spec_total() <= u128::MAX
    }

    /// Makes the record from the three readings, each taken as the time
    /// since the start. Readings that go back give no record.
    pub fn from_samples(connected: u128, authenticated: u128, closed: u128) -> (record: Option<
        TimingRecord,
    >)
        ensures
            record is Some <==> monotone(connected, authenticated, closed),
            record matches Some(r) ==> r == record_of(connected, authenticated, closed) && r.wf()
                && r.spec_total() == closed,
    {
        if connected <= authenticated && authenticated <= closed {
            Some(
                TimingRecord {
                    connect_latency: connected,
                    auth_latency: authenticated - connected,
                    relay_duration: closed - authenticated,
                },
            )
        } else {
            None
        }
    }

    /// The time from the start to the end of the relay, where it fits the
    /// machine's widest integer.
    pub fn total(&self) -> (total: Option<u128>)
        ensures
            total is Some <==> self.wf(),
            total matches Some(t) ==> t == self.spec_total(),
    {
        if self.auth_latency > u128::MAX - self.connect_latency {
            return None;
        }
        let authenticated: u128 = self.connect_latency + self.auth_latency;
        if self.relay_duration > u128::MAX - authenticated {
            return None;
        }
        Some(authenticated + self.relay_duration)
    }
}

/// The durations of a record add up to the last reading, and each one spans
/// from one milestone to the next: none is negative, and their partial sums
/// are the readings themselves.
pub proof fn lemma_record_accounts_for_all_time(connected: u128, authenticated: u128, closed: u128)
    requires
        monotone(connected, authenticated, closed),
    ensures
        record_of(connected, authenticated, closed).wf(),
        0 <= record_of(connected, authenticated, closed).connect_latency == connected,
        0 <= record_of(connected, authenticated, closed).auth_latency,
        0 <= record_of(connected, authenticated, closed).relay_duration,
        record_of(connected, authenticated, closed).connect_latency + record_of(
            connected,
            authenticated,
            closed,
        ).auth_latency == authenticated,
        record_of(connected, authenticated, closed).spec_total() == closed,
{
}

/// A later last reading lengthens the relay and nothing else.
pub proof fn lemma_later_close_lengthens_relay(
    connected: u128,
    authenticated: u128,
    closed: u128,
    later: u128,
)
    requires
        monotone(connected, authenticated, closed),
        closed <= later,
    ensures
        monotone(connected, authenticated, later),
        record_of(connected, authenticated, later).connect_latency == record_of(
            connected,
            authenticated,
            closed,
        ).connect_latency,
        record_of(connected, authenticated, later).auth_latency == record_of(
            connected,
            authenticated,
            closed,
        ).auth_latency,
        record_of(connected, authenticated, later).relay_duration >= record_of(
            connected,
            authenticated,
            closed,
        ).relay_duration,
{
}

} // verus!
