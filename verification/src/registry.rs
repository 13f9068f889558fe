//! The handler registry: an ordered mapping from `(module, method)` to a
//! handler, with unique keys. It is populated once, while the client
//! façade is being constructed, and read-only afterwards.

use vstd::prelude::*;

verus! {

use crate::handler::Capability;
use crate::text::str_eq;
use vstd::string::StringExecFns;

/// A handler registered under its `(module, method)` identity, together
/// with the capability of the underlying client it reads through.
pub struct Entry<H> {
    pub module: String,
    pub method: String,
    pub required: Capability,
    pub handler: H,
}

/// A construction-time failure: both are programming errors caught before
/// the façade is handed to the host.
#[derive(Clone, Copy, PartialEq, Eq, Structural, Debug)]
pub enum JoinError {
    /// Two handlers were registered under the same `(module, method)`.
    DuplicateHandler,
    /// A handler requires a capability the client cannot supply.
    MissingCapability,
}

impl JoinError {
    /// The human-readable message the host's rejection carries.
    pub fn message(&self) -> (r: String)
        ensures
            *self == JoinError::DuplicateHandler ==> r@
                == "two handlers registered under one (module, method)"@,
            *self == JoinError::MissingCapability ==> r@
                == "a handler requires a capability the client cannot supply"@,
    {
        match self {
            JoinError::DuplicateHandler => String::from_str(
                "two handlers registered under one (module, method)",
            ),
            JoinError::MissingCapability => String::from_str(
                "a handler requires a capability the client cannot supply",
            ),
        }
    }
}

/// The entry a lookup finds: the first whose `(module, method)` matches.
/// Keys are unique, so at most one entry can match.
pub open spec fn spec_resolve<H>(entries: Seq<Entry<H>>, module: Seq<char>, method: Seq<char>) -> Option<
    Entry<H>,
>
    decreases entries.len(),
{
    if entries.len() == 0 {
        None
    } else if entries[0].module@ == module && entries[0].method@ == method {
        Some(entries[0])
    } else {
        spec_resolve(entries.drop_first(), module, method)
    }
}

/// A lookup skips any prefix in which nothing matches.
pub proof fn lemma_resolve_prefix<H>(s: Seq<Entry<H>>, i: int, module: Seq<char>, method: Seq<char>)
    requires
        0 <= i <= s.len(),
        spec_resolve(s.take(i), module, method) is None,
    ensures
        spec_resolve(s, module, method) == spec_resolve(s.skip(i), module, method),
    decreases i,
{
    if i == 0 {
        assert(s.skip(0) =~= s);
    } else {
        assert(s.take(i).len() == i);
        assert(s.take(i)[0] == s[0]);
        assert(!(s[0].module@ == module && s[0].method@ == method));
        assert(s.take(i).drop_first() =~= s.drop_first().take(i - 1));
        lemma_resolve_prefix(s.drop_first(), i - 1, module, method);
        assert(s.drop_first().skip(i - 1) =~= s.skip(i));
    }
}

/// No two entries share a `(module, method)` key.
pub open spec fn keys_distinct<H>(s: Seq<Entry<H>>) -> bool {
    forall|i: int, j: int|
        0 <= i < j < s.len() ==> !(s[i].module@ == s[j].module@ && s[i].method@ == s[j].method@)
}

/// Law: registration order is not observable through lookups. With unique
/// keys, a lookup finds exactly the entry that carries its key, wherever
/// in the registration order that entry stands.
pub proof fn lemma_resolution_order_blind<H>(s: Seq<Entry<H>>, i: int)
    requires
        keys_distinct(s),
        0 <= i < s.len(),
    ensures
        spec_resolve(s, s[i].module@, s[i].method@) == Some(s[i]),
    decreases s.len(),
{
    if i == 0 {
    } else {
        assert(!(s[0].module@ == s[i].module@ && s[0].method@ == s[i].method@));
        assert(keys_distinct(s.drop_first())) by {
            assert(forall|p: int, q: int|
                0 <= p < q < s.drop_first().len() ==> s.drop_first()[p] == s[p + 1]
                    && s.drop_first()[q] == s[q + 1]);
        }
        lemma_resolution_order_blind(s.drop_first(), i - 1);
        assert(s.drop_first()[i - 1] == s[i]);
    }
}

/// A lookup fails exactly when no entry carries the key.
pub proof fn lemma_resolve_none<H>(s: Seq<Entry<H>>, module: Seq<char>, method: Seq<char>)
    ensures
        spec_resolve(s, module, method) is None <==> (forall|j: int|
            0 <= j < s.len() ==> !(s[j].module@ == module && s[j].method@ == method)),
    decreases s.len(),
{
    if s.len() > 0 {
        lemma_resolve_none(s.drop_first(), module, method);
        assert(forall|j: int| 0 < j < s.len() ==> s.drop_first()[j - 1] == s[j]);
    }
}

/// The registry itself. Its view is the sequence of entries in the order
/// they were registered; registration order is not observable through
/// lookups because keys are unique.
pub struct Registry<H> {
    entries: Vec<Entry<H>>,
}

impl<H> View for Registry<H> {
    type V = Seq<Entry<H>>;

    closed spec fn view(&self) -> Seq<Entry<H>> {
        self.entries@
    }
}

impl<H> Registry<H> {
    /// An empty registry.
    pub fn new() -> (r: Registry<H>)
        ensures
            r@ == Seq::<Entry<H>>::empty(),
    {
        Registry { entries: Vec::new() }
    }

    /// The entry registered under `(module, method)`, if any.
    pub fn resolve(&self, module: &str, method: &str) -> (r: Option<&Entry<H>>)
        ensures
            match r {
                Some(e) => spec_resolve(self@, module@, method@) == Some(*e),
                None => spec_resolve(self@, module@, method@) is None,
            },
    {
        let n = self.entries.len();
        let mut i: usize = 0;
        while i < n
            invariant
                i <= n,
                n == self@.len(),
                spec_resolve(self@.take(i as int), module@, method@) is None,
            decreases n - i,
        {
            let e = &self.entries[i];
            if str_eq(e.module.as_str(), module) && str_eq(e.method.as_str(), method) {
                proof {
                    lemma_resolve_prefix(self@, i as int, module@, method@);
                    assert(self@.skip(i as int)[0] == self@[i as int]);
                }
                return Some(e);
            }
            proof {
                let t = self@.take(i as int + 1);
                assert(t.take(i as int) =~= self@.take(i as int));
                lemma_resolve_prefix(t, i as int, module@, method@);
                assert(t.skip(i as int).len() == 1);
                assert(t.skip(i as int)[0] == self@[i as int]);
                assert(!(t.skip(i as int)[0].module@ == module@ && t.skip(i as int)[0].method@
                    == method@));
                assert(t.skip(i as int).drop_first() =~= Seq::<Entry<H>>::empty());
                assert(spec_resolve(t.skip(i as int).drop_first(), module@, method@) is None);
                assert(spec_resolve(t.skip(i as int), module@, method@) is None);
            }
            i += 1;
        }
        proof {
            assert(self@.take(n as int) =~= self@);
        }
        None
    }

    /// Adds an entry. Fails, and leaves the registry as it was, exactly
    /// when its `(module, method)` is already registered.
    pub fn register(&mut self, e: Entry<H>) -> (r: Result<(), JoinError>)
        ensures
            r is Ok <==> spec_resolve(old(self)@, e.module@, e.method@) is None,
            r is Ok ==> final(self)@ == old(self)@.push(e),
            r is Err ==> final(self)@ == old(self)@ && r == Err::<(), JoinError>(
                JoinError::DuplicateHandler,
            ),
    {
        let taken = self.resolve(e.module.as_str(), e.method.as_str()).is_some();
        if taken {
            Err(JoinError::DuplicateHandler)
        } else {
            self.entries.push(e);
            Ok(())
        }
    }
}

} // verus!
