//! The client façade: it holds a handle on the underlying federation
//! client and the handler registry, and exposes the single `rpc` entry
//! point. Construction registers every handler once, checks that the
//! client can supply each handler's capability, and fails before the
//! façade is handed out if either check does not hold.

use vstd::prelude::*;

verus! {

use crate::envelope::{error_envelope, error_envelope_spec};
use crate::handler::{envelope_of, envelopes_of, Capability, Handler, Produced};
use crate::json::{check_json, json_valid};
use crate::registry::{keys_distinct, lemma_resolve_none, spec_resolve, Entry, JoinError, Registry};
use crate::sink::Sink;
use vstd::string::StringExecFns;

/// The adapter's view of the underlying federation client: which
/// capabilities it can project for handlers. The client itself — its
/// secrets, configuration and store — is an opaque blob the adapter never
/// inspects.
pub struct ClientHandle {
    pub capabilities: Vec<Capability>,
}

impl ClientHandle {
    /// Whether this client can project a capability.
    pub fn supplies(&self, c: Capability) -> (r: bool)
        ensures
            r == self.capabilities@.contains(c),
    {
        let n = self.capabilities.len();
        let mut i: usize = 0;
        while i < n
            invariant
                i <= n,
                n == self.capabilities@.len(),
                forall|j: int| 0 <= j < i ==> self.capabilities@[j] != c,
            decreases n - i,
        {
            if self.capabilities[i] == c {
                return true;
            }
            i += 1;
        }
        false
    }
}

/// Every entry's required capability is among the supplied ones.
pub open spec fn caps_supplied<H>(caps: Seq<Capability>, s: Seq<Entry<H>>) -> bool {
    forall|i: int| 0 <= i < s.len() ==> caps.contains(s[i].required)
}

/// The message delivered when no handler is registered under the
/// requested `(module, method)`.
pub open spec fn not_found_message(module: Seq<char>, method: Seq<char>) -> Seq<char> {
    "handler not found: "@ + module + "/"@ + method
}

/// The message delivered when the request body is not valid JSON; the
/// detail comes from the decoder.
pub open spec fn parse_failure_message(detail: Seq<char>) -> Seq<char> {
    "could not parse request body: "@ + detail
}

/// The stream driver: turns a produced sequence into envelopes and hands
/// each to the sink, in order, one invocation per step. A refused
/// delivery — the host callback raising — does not stop the stream.
pub fn drive<S: Sink>(items: &Vec<Produced>, sink: &mut S)
    ensures
        final(sink).delivered() == old(sink).delivered() + envelopes_of(items@),
{
    let n = items.len();
    let mut i: usize = 0;
    while i < n
        invariant
            i <= n,
            n == items@.len(),
            sink.delivered() == old(sink).delivered() + envelopes_of(items@.take(i as int)),
        decreases n - i,
    {
        match &items[i] {
            Produced::Item(s) => {
                let _ = sink.emit(s.as_str());
            },
            Produced::Failure(m) => {
                let env = error_envelope(m.as_str());
                let _ = sink.emit(env.as_str());
            },
        }
        proof {
            assert(envelopes_of(items@.take(i as int + 1)) =~= envelopes_of(
                items@.take(i as int),
            ).push(envelope_of(items@[i as int])));
            assert(sink.delivered() =~= old(sink).delivered() + envelopes_of(
                items@.take(i as int + 1),
            ));
        }
        i += 1;
    }
    proof {
        assert(items@.take(n as int) =~= items@);
    }
}

/// The façade the host holds: the client handle and the registry, built
/// together and read-only afterwards.
pub struct WasmClient<H: Handler> {
    client: ClientHandle,
    registry: Registry<H>,
}

impl<H: Handler> WasmClient<H> {
    /// The registered entries, in registration order.
    pub closed spec fn handlers(&self) -> Seq<Entry<H>> {
        self.registry@
    }

    /// The capabilities the underlying client can project.
    pub closed spec fn capabilities(&self) -> Seq<Capability> {
        self.client.capabilities@
    }

    /// Reopens a previously persisted session. No session persists at
    /// this layer, so there is never a client to reopen.
    pub fn open() -> (r: Option<WasmClient<H>>)
        ensures
            r is None,
    {
        None
    }

    /// Builds the façade over a joined client: registers each handler
    /// under its `(module, method)` key and checks that the client can
    /// supply its capability. Fails, before any façade exists, if a key
    /// is registered twice or a capability cannot be supplied.
    pub fn join_federation(client: ClientHandle, handlers: Vec<Entry<H>>) -> (r: Result<
        WasmClient<H>,
        JoinError,
    >)
        ensures
            r is Ok <==> (keys_distinct(handlers@) && caps_supplied(
                client.capabilities@,
                handlers@,
            )),
            r matches Ok(c) ==> c.handlers() == handlers@ && c.capabilities()
                == client.capabilities@,
            r == Err::<WasmClient<H>, JoinError>(JoinError::DuplicateHandler)
                ==> !keys_distinct(handlers@),
            r == Err::<WasmClient<H>, JoinError>(JoinError::MissingCapability) ==> !caps_supplied(
                client.capabilities@,
                handlers@,
            ),
    {
        let ghost all = handlers@;
        let mut registry: Registry<H> = Registry::new();
        let mut rest = handlers;
        let ghost mut k: int = 0;
        while rest.len() > 0
            invariant
                all == handlers@,
                0 <= k <= all.len(),
                rest@ == all.skip(k),
                registry@ == all.take(k),
                keys_distinct(all.take(k)),
                caps_supplied(client.capabilities@, all.take(k)),
            decreases rest.len(),
        {
            proof {
                assert(rest@[0] == all[k]);
            }
            let e = rest.remove(0);
            proof {
                assert(rest@ =~= all.skip(k + 1));
            }
            if !client.supplies(e.required) {
                proof {
                    assert(e == all[k]);
                    assert(!client.capabilities@.contains(all[k].required));
                    assert(!caps_supplied(client.capabilities@, all));
                }
                return Err(JoinError::MissingCapability);
            }
            let ghost m = e.module@;
            let ghost meth = e.method@;
            match registry.register(e) {
                Ok(()) => {
                    proof {
                        lemma_resolve_none(all.take(k), m, meth);
                        assert(all.take(k + 1) =~= all.take(k).push(all[k]));
                        assert(keys_distinct(all.take(k + 1)));
                        assert(caps_supplied(client.capabilities@, all.take(k + 1)));
                        k = k + 1;
                    }
                },
                Err(_) => {
                    proof {
                        lemma_resolve_none(all.take(k), m, meth);
                        let j = choose|j: int|
                            0 <= j < k && all.take(k)[j].module@ == m && all.take(k)[j].method@
                                == meth;
                        assert(all[j].module@ == all[k].module@ && all[j].method@
                            == all[k].method@);
                        assert(!keys_distinct(all));
                    }
                    return Err(JoinError::DuplicateHandler);
                },
            }
        }
        proof {
            assert(all.take(k) =~= all);
        }
        Ok(WasmClient { client, registry })
    }

    /// The single host entry point. One call resolves the handler under
    /// `(module, method)`, checks the body, and delivers envelopes to the
    /// sink: exactly one `{"error": …}` envelope if no handler is
    /// registered or the body is not valid JSON, otherwise one envelope
    /// per step the handler produces, in the handler's order. When this
    /// function returns, the stream has ended: nothing invokes the sink
    /// thereafter.
    pub fn rpc<S: Sink>(&self, module: &str, method: &str, body: &str, sink: &mut S)
        ensures
            match spec_resolve(self.handlers(), module@, method@) {
                None => final(sink).delivered() == old(sink).delivered().push(
                    error_envelope_spec(not_found_message(module@, method@)),
                ),
                Some(e) => if json_valid(body@) {
                    final(sink).delivered() == old(sink).delivered() + envelopes_of(
                        e.handler.produced(body@),
                    )
                } else {
                    exists|detail: Seq<char>|
                        final(sink).delivered() == old(sink).delivered().push(
                            error_envelope_spec(parse_failure_message(detail)),
                        )
                },
            },
    {
        match self.registry.resolve(module, method) {
            None => {
                let mut msg = String::from_str("handler not found: ");
                msg.append(module);
                msg.append("/");
                msg.append(method);
                proof {
                    assert(msg@ =~= not_found_message(module@, method@));
                }
                let env = error_envelope(msg.as_str());
                let _ = sink.emit(env.as_str());
            },
            Some(e) => {
                match check_json(body) {
                    Err(detail) => {
                        let mut msg = String::from_str("could not parse request body: ");
                        msg.append(detail.as_str());
                        proof {
                            assert(msg@ =~= parse_failure_message(detail@));
                        }
                        let env = error_envelope(msg.as_str());
                        let _ = sink.emit(env.as_str());
                        proof {
                            assert(sink.delivered() == old(sink).delivered().push(
                                error_envelope_spec(parse_failure_message(detail@)),
                            ));
                        }
                    },
                    Ok(()) => {
                        let items = e.handler.handle(body);
                        drive(&items, sink);
                    },
                }
            },
        }
    }
}

/// Law: one callback invocation per produced step. A call that reaches
/// its handler — `rpc` ensures the sink grows by exactly
/// `envelopes_of(h.produced(body))` — invokes the sink exactly as many
/// times as the handler produces steps, whatever each delivery came back
/// with.
pub proof fn lemma_delivery_count<H: Handler>(h: H, body: Seq<char>, pre: Seq<Seq<char>>)
    ensures
        (pre + envelopes_of(h.produced(body))).len() == pre.len() + h.produced(body).len(),
{
}

/// Law: deliveries preserve the producer's order: the i-th envelope a
/// call adds to the sink is the envelope of the i-th step the handler
/// produced.
pub proof fn lemma_delivery_order<H: Handler>(h: H, body: Seq<char>, pre: Seq<Seq<char>>, i: int)
    requires
        0 <= i < h.produced(body).len(),
    ensures
        (pre + envelopes_of(h.produced(body)))[pre.len() + i] == envelope_of(h.produced(body)[i]),
{
}

/// Law: a registered handler reached with a decodable body yields at
/// least one delivery before the call completes, whenever its produced
/// sequence is nonempty.
pub proof fn lemma_nonempty_stream_delivers<H: Handler>(h: H, body: Seq<char>, pre: Seq<Seq<char>>)
    requires
        h.produced(body).len() > 0,
    ensures
        (pre + envelopes_of(h.produced(body))).len() > pre.len(),
{
}

} // verus!
