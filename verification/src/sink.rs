//! The callback bridge's view of the host: a sink that takes one envelope
//! per call. A sink may refuse a delivery — that stands for the host
//! callback raising — but the invocation has happened either way, and the
//! bridge carries on with the rest of the stream.

use vstd::prelude::*;

verus! {

use vstd::string::StringExecFns;

/// Where envelopes go: one `emit` per envelope, in stream order. The
/// envelopes delivered so far are part of a sink's specification, so that
/// the bridge's contract can say exactly what the host was handed.
pub trait Sink: Sized {
    /// The envelopes this sink has been handed, in order.
    spec fn delivered(&self) -> Seq<Seq<char>>;

    /// Takes one envelope. An `Err` result stands for the host callback
    /// raising; the delivery still counts, whichever way the call came
    /// back.
    fn emit(&mut self, envelope: &str) -> (r: Result<(), ()>)
        ensures
            final(self).delivered() == old(self).delivered().push(envelope@),
    ;
}

/// An in-memory sink that accepts every envelope.
pub struct RecordingSink {
    pub received: Vec<String>,
}

impl RecordingSink {
    /// A sink that has received nothing yet.
    pub fn new() -> (r: RecordingSink)
        ensures
            r.delivered() == Seq::<Seq<char>>::empty(),
    {
        let r = RecordingSink { received: Vec::new() };
        proof {
            assert(r.delivered() =~= Seq::<Seq<char>>::empty());
        }
        r
    }
}

impl Sink for RecordingSink {
    open spec fn delivered(&self) -> Seq<Seq<char>> {
        self.received@.map_values(|s: String| s@)
    }

    fn emit(&mut self, envelope: &str) -> (r: Result<(), ()>) {
        self.received.push(String::from_str(envelope));
        proof {
            assert(self.delivered() =~= old(self).delivered().push(envelope@));
        }
        Ok(())
    }
}

/// An in-memory sink that stands for a misbehaving host callback: it
/// records every envelope, and reports a fault on each invocation whose
/// index is marked in `faults`.
pub struct FaultySink {
    pub received: Vec<String>,
    pub faults: Vec<bool>,
}

impl Sink for FaultySink {
    open spec fn delivered(&self) -> Seq<Seq<char>> {
        self.received@.map_values(|s: String| s@)
    }

    fn emit(&mut self, envelope: &str) -> (r: Result<(), ()>) {
        let at = self.received.len();
        self.received.push(String::from_str(envelope));
        proof {
            assert(self.delivered() =~= old(self).delivered().push(envelope@));
        }
        if at < self.faults.len() && self.faults[at] {
            Err(())
        } else {
            Ok(())
        }
    }
}

} // verus!
