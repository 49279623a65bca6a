use vstd::prelude::*;

use crate::error::Error;

verus! {

/// A property of the host's global object, or of its `crypto` object, whose
/// presence the detector asks about.
#[derive(Clone, Copy, Debug, PartialEq, Eq, Structural)]
pub enum Capability {
    /// `self` on the global object: defined in a window or a web worker,
    /// undefined in a server-side runtime.
    SelfObject,
    /// `crypto` on the global object.
    Crypto,
    /// `getRandomValues` on the `crypto` object.
    GetRandomValues,
}

/// Which host primitive fills buffers.
#[derive(Clone, Copy, Debug, PartialEq, Eq, Structural)]
pub enum SourceKind {
    /// The server runtime's crypto module (`randomFillSync`), called once on
    /// the whole buffer.
    Node,
    /// The browser's `crypto.getRandomValues`, called once per chunk.
    Browser,
}

/// Where detection stands: it needs the answer to one more probe, or it has
/// decided.
#[derive(Clone, Copy, Debug, PartialEq, Eq, Structural)]
pub enum Detection {
    /// Ask the host whether this property is defined, and hand the answer to
    /// `detect_advance`.
    Probe(Capability),
    /// The host offers this source.
    Found(SourceKind),
    /// The host offers no secure source.
    Failed(Error),
}

/// Which of the probed properties a host defines.
#[derive(Clone, Copy, Debug, PartialEq, Eq, Structural)]
pub struct HostEnv {
    pub has_self: bool,
    pub has_crypto: bool,
    pub has_get_random_values: bool,
}

/// Whether `env` defines the property `c`.
pub open spec fn defines_spec(env: HostEnv, c: Capability) -> bool {
    match c {
        Capability::SelfObject => env.has_self,
        Capability::Crypto => env.has_crypto,
        Capability::GetRandomValues => env.has_get_random_values,
    }
}

/// The source a host offers: a host without `self` is a server runtime; a
/// browser-like host needs both `crypto` and `crypto.getRandomValues`.
pub open spec fn detect_spec(env: HostEnv) -> Result<SourceKind, Error> {
    if !env.has_self {
        Ok(SourceKind::Node)
    } else if !env.has_crypto {
        Err(Error::CryptoUndefined)
    } else if !env.has_get_random_values {
        Err(Error::GetRandomValuesUndefined)
    } else {
        Ok(SourceKind::Browser)
    }
}

/// The step that follows the answer `defined` to the probe `asked`.
pub open spec fn advance_spec(asked: Capability, defined: bool) -> Detection {
    match asked {
        Capability::SelfObject => if defined {
            Detection::Probe(Capability::Crypto)
        } else {
            Detection::Found(SourceKind::Node)
        },
        Capability::Crypto => if defined {
            Detection::Probe(Capability::GetRandomValues)
        } else {
            Detection::Failed(Error::CryptoUndefined)
        },
        Capability::GetRandomValues => if defined {
            Detection::Found(SourceKind::Browser)
        } else {
            Detection::Failed(Error::GetRandomValuesUndefined)
        },
    }
}

/// What detection yields from step `d` on, on a host that has passed the
/// probes before it.
pub open spec fn pending(d: Detection, env: HostEnv) -> Result<SourceKind, Error> {
    match d {
        Detection::Probe(Capability::SelfObject) => detect_spec(env),
        Detection::Probe(Capability::Crypto) => if !env.has_crypto {
            Err(Error::CryptoUndefined)
        } else if !env.has_get_random_values {
            Err(Error::GetRandomValuesUndefined)
        } else {
            Ok(SourceKind::Browser)
        },
        Detection::Probe(Capability::GetRandomValues) => if !env.has_get_random_values {
            Err(Error::GetRandomValuesUndefined)
        } else {
            Ok(SourceKind::Browser)
        },
        Detection::Found(k) => Ok(k),
        Detection::Failed(e) => Err(e),
    }
}

/// How many probes at most are left from step `d`.
pub open spec fn probes_left(d: Detection) -> nat {
    match d {
        Detection::Probe(Capability::SelfObject) => 3,
        Detection::Probe(Capability::Crypto) => 2,
        Detection::Probe(Capability::GetRandomValues) => 1,
        _ => 0,
    }
}

/// Detection starts by asking whether the global object has `self`.
pub fn detect_begin() -> (r: Detection)
    ensures
        r == Detection::Probe(Capability::SelfObject),
{
    Detection::Probe(Capability::SelfObject)
}

/// Takes the host's answer to the probe `asked` and says what comes next.
pub fn detect_advance(asked: Capability, defined: bool) -> (r: Detection)
    ensures
        r == advance_spec(asked, defined),
{
    match asked {
        Capability::SelfObject => if defined {
            Detection::Probe(Capability::Crypto)
        } else {
            Detection::Found(SourceKind::Node)
        },
        Capability::Crypto => if defined {
            Detection::Probe(Capability::GetRandomValues)
        } else {
            Detection::Failed(Error::CryptoUndefined)
        },
        Capability::GetRandomValues => if defined {
            Detection::Found(SourceKind::Browser)
        } else {
            Detection::Failed(Error::GetRandomValuesUndefined)
        },
    }
}

impl HostEnv {
    /// Whether this host defines the property `c`.
    pub fn defines(&self, c: Capability) -> (r: bool)
        ensures
            r == defines_spec(*self, c),
    {
        match c {
            Capability::SelfObject => self.has_self,
            Capability::Crypto => self.has_crypto,
            Capability::GetRandomValues => self.has_get_random_values,
        }
    }
}

/// Each answered probe brings detection closer to its outcome on `env`,
/// without changing that outcome.
pub proof fn lemma_advance_keeps_outcome(env: HostEnv, c: Capability)
    requires
        pending(Detection::Probe(c), env) == detect_spec(env),
    ensures
        pending(advance_spec(c, defines_spec(env, c)), env) == detect_spec(env),
        probes_left(advance_spec(c, defines_spec(env, c))) < probes_left(Detection::Probe(c)),
{
}

/// Runs detection against a host whose properties are known, answering each
/// probe from `env`; the outcome is the source that `env` offers.
pub fn detect(env: &HostEnv) -> (r: Result<SourceKind, Error>)
    ensures
        r == detect_spec(*env),
{
    let mut step = detect_begin();
    loop
        invariant
            pending(step, *env) == detect_spec(*env),
        decreases probes_left(step),
    {
        match step {
            Detection::Probe(c) => {
                let defined = env.defines(c);
                proof {
                    lemma_advance_keeps_outcome(*env, c);
                }
                step = detect_advance(c, defined);
            },
            Detection::Found(k) => {
                return Ok(k);
            },
            Detection::Failed(e) => {
                return Err(e);
            },
        }
    }
}

} // verus!
