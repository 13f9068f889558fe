//! Handlers: the typed objects a `(module, method)` pair resolves to.
//!
//! A handler produces a finite sequence of steps for one request; each
//! step is either a serialized success item or a failure with a message.
//! The bridge turns that sequence into envelope text, one envelope per
//! step, in order.

use vstd::prelude::*;

verus! {

use crate::envelope::error_envelope_spec;

/// A sub-module of the underlying federation client that a handler reads
/// through. The façade must be able to project every capability its
/// registered handlers require.
#[derive(Clone, Copy, PartialEq, Eq, Structural, Debug)]
pub enum Capability {
    /// The lightning module view.
    Lightning,
    /// The mint module view.
    Mint,
    /// The client itself, for module-independent reads such as the balance.
    ClientCore,
}

/// One step of a handler's produced sequence: a success item, already
/// serialized as a JSON object, or a failure carrying a message.
///
/// The two envelope shapes are told apart solely by the presence of a
/// top-level `"error"` key, so a handler must not produce a success item
/// whose top-level shape collides with that discriminator.
pub enum Produced {
    Item(String),
    Failure(String),
}

impl Produced {
    /// A value equal to this one.
    pub fn duplicate(&self) -> (r: Produced)
        ensures
            r == *self,
    {
        match self {
            Produced::Item(s) => Produced::Item(s.clone()),
            Produced::Failure(m) => Produced::Failure(m.clone()),
        }
    }
}

/// The envelope text one produced step turns into: a success item stands
/// as it is, a failure becomes the error envelope for its message.
pub open spec fn envelope_of(p: Produced) -> Seq<char> {
    match p {
        Produced::Item(s) => s@,
        Produced::Failure(m) => error_envelope_spec(m@),
    }
}

/// The envelope texts of a whole produced sequence, in order.
pub open spec fn envelopes_of(items: Seq<Produced>) -> Seq<Seq<char>> {
    items.map_values(|p: Produced| envelope_of(p))
}

/// A handler for one `(module, method)` pair: asked to handle a request
/// body, it yields its produced sequence. The sequence a handler yields
/// for a body is part of its specification, so that the bridge's contract
/// can say exactly which envelopes a call delivers.
///
/// The bridge hands a handler only bodies that are valid JSON; the typed,
/// schema-strict decoding of the body is the handler's own step, and its
/// rejections travel through the stream as `Produced::Failure`.
pub trait Handler: Sized {
    /// The sequence of steps this handler produces for a request body.
    spec fn produced(&self, body: Seq<char>) -> Seq<Produced>;

    /// Produce the steps for one request.
    fn handle(&self, body: &str) -> (r: Vec<Produced>)
        ensures
            r@ == self.produced(body@),
    ;
}

/// A handler that yields a fixed sequence of steps, whatever the body
/// says. It stands in for handlers whose semantics live elsewhere, and
/// lets the bridge be exercised against any chosen stream.
pub struct FixedHandler {
    pub items: Vec<Produced>,
}

impl Handler for FixedHandler {
    open spec fn produced(&self, body: Seq<char>) -> Seq<Produced> {
        self.items@
    }

    fn handle(&self, body: &str) -> (r: Vec<Produced>) {
        let mut out: Vec<Produced> = Vec::new();
        let n = self.items.len();
        let mut i: usize = 0;
        while i < n
            invariant
                i <= n,
                n == self.items@.len(),
                out@ == self.items@.take(i as int),
            decreases n - i,
        {
            out.push(self.items[i].duplicate());
            proof {
                assert(out@ =~= self.items@.take(i as int + 1));
            }
            i += 1;
        }
        proof {
            assert(self.items@.take(n as int) =~= self.items@);
        }
        out
    }
}

} // verus!
