//! Annotations.

use crate::clock;
use crate::time::Timestamp;
use vstd::prelude::*;

verus! {

/// The mathematical content of an [`Annotation`]: the instant in
/// nanoseconds since the epoch and the event code.
#[verifier::ext_equal]
pub ghost struct AnnotationView {
    /// Nanoseconds since the Unix epoch.
    pub timestamp: nat,
    /// The event code.
    pub value: Seq<char>,
}

/// Associates an event that explains latency with a timestamp.
///
/// Unlike log statements, annotations are often codes, e.g. "ws" for
/// WireSend.
#[derive(Debug, PartialEq)]
pub struct Annotation {
    timestamp: Timestamp,
    value: String,
}

impl View for Annotation {
    type V = AnnotationView;

    closed spec fn view(&self) -> AnnotationView {
        AnnotationView { timestamp: self.timestamp@, value: self.value@ }
    }
}

impl Clone for Annotation {
    /// An annotation clones to an equal annotation.
    fn clone(&self) -> (r: Annotation)
        ensures
            r@ == self@,
    {
        Annotation { timestamp: self.timestamp, value: self.value.clone() }
    }
}

impl Annotation {
    /// Creates a new `Annotation`.
    pub fn new(timestamp: Timestamp, value: &str) -> (r: Annotation)
        ensures
            r@.timestamp == timestamp@,
            r@.value == value@,
    {
        Annotation { timestamp, value: value.to_owned() }
    }

    /// Creates a new `Annotation` at the current time.
    pub fn now(value: &str) -> (r: Annotation)
        ensures
            r@.value == value@,
    {
        Annotation::new(clock::wall_now(), value)
    }

    /// Returns the time at which the annotated event occurred.
    pub fn timestamp(&self) -> (r: Timestamp)
        ensures
            r@ == self@.timestamp,
    {
        self.timestamp
    }

    /// Returns the value of the annotation.
    pub fn value(&self) -> (r: &str)
        ensures
            r@ == self@.value,
    {
        self.value.as_str()
    }
}

} // verus!
