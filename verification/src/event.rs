//! The event interface.
use vstd::prelude::*;
use crate::host::{LogRecord, LogRecordModel};
use crate::primitives::bytes::Bytes32;

verus! {

/// An event. Its name goes into each of its log records as the payload,
/// behind the topics in the order in which they are given.
pub trait Event {
    /// The name of the event.
    spec fn event_name() -> &'static [u8];

    /// The name of the event.
    fn name() -> (name: &'static [u8])
        ensures
            name@ == Self::event_name()@,
    ;

    /// The log record without topics.
    fn log0(&self) -> (record: LogRecord)
        ensures
            record@ == (LogRecordModel { topics: Seq::empty(), data: Self::event_name()@ }),
    {
        let topics: Vec<Bytes32> = Vec::new();
        LogRecord { topics, data: vstd::slice::slice_to_vec(Self::name()) }
    }

    /// The log record with one topic.
    fn log1(&self, topic: Bytes32) -> (record: LogRecord)
        ensures
            record@ == (LogRecordModel { topics: seq![topic], data: Self::event_name()@ }),
    {
        let mut topics: Vec<Bytes32> = Vec::new();
        topics.push(topic);
        assert(topics@ =~= seq![topic]);
        LogRecord { topics, data: vstd::slice::slice_to_vec(Self::name()) }
    }

    /// The log record with two topics.
    fn log2(&self, topic1: Bytes32, topic2: Bytes32) -> (record: LogRecord)
        ensures
            record@ == (LogRecordModel { topics: seq![topic1, topic2], data: Self::event_name()@ }),
    {
        let mut topics: Vec<Bytes32> = Vec::new();
        topics.push(topic1);
        topics.push(topic2);
        assert(topics@ =~= seq![topic1, topic2]);
        LogRecord { topics, data: vstd::slice::slice_to_vec(Self::name()) }
    }

    /// The log record with three topics.
    fn log3(&self, topic1: Bytes32, topic2: Bytes32, topic3: Bytes32) -> (record: LogRecord)
        ensures
            record@ == (LogRecordModel {
                topics: seq![topic1, topic2, topic3],
                data: Self::event_name()@,
            }),
    {
        let mut topics: Vec<Bytes32> = Vec::new();
        topics.push(topic1);
        topics.push(topic2);
        topics.push(topic3);
        assert(topics@ =~= seq![topic1, topic2, topic3]);
        LogRecord { topics, data: vstd::slice::slice_to_vec(Self::name()) }
    }

    /// The log record with four topics.
    fn log4(&self, topic1: Bytes32, topic2: Bytes32, topic3: Bytes32, topic4: Bytes32) -> (record:
        LogRecord)
        ensures
            record@ == (LogRecordModel {
                topics: seq![topic1, topic2, topic3, topic4],
                data: Self::event_name()@,
            }),
    {
        let mut topics: Vec<Bytes32> = Vec::new();
        topics.push(topic1);
        topics.push(topic2);
        topics.push(topic3);
        topics.push(topic4);
        assert(topics@ =~= seq![topic1, topic2, topic3, topic4]);
        LogRecord { topics, data: vstd::slice::slice_to_vec(Self::name()) }
    }
}

} // verus!
