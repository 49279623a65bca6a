use vstd::prelude::*;

use crate::chunk::{chunk_count, chunk_plan, chunks_of, covers, lemma_chunks_cover, total_len, Chunk};
use crate::detect::{detect_spec, HostEnv, SourceKind};
use crate::error::Error;

verus! {

/// A randomness source that detection chose, with the host's handle to it:
/// `N` for the server runtime's crypto module, `B` for the browser's crypto
/// object.
#[derive(Clone, Debug)]
pub enum RngSource<N, B> {
    Node(N),
    Browser(B),
}

impl<N, B> RngSource<N, B> {
    pub open spec fn kind_spec(&self) -> SourceKind {
        match self {
            RngSource::Node(_) => SourceKind::Node,
            RngSource::Browser(_) => SourceKind::Browser,
        }
    }

    /// Which primitive this source fills through.
    pub fn kind(&self) -> (r: SourceKind)
        ensures
            r == self.kind_spec(),
    {
        match self {
            RngSource::Node(_) => SourceKind::Node,
            RngSource::Browser(_) => SourceKind::Browser,
        }
    }
}

/// The calls of the fill primitive that one request of `len` bytes makes:
/// the server runtime's module fills the whole buffer in one call; the
/// browser's `getRandomValues` is called once per chunk.
pub open spec fn dispatch_spec(kind: SourceKind, len: nat) -> Seq<Chunk> {
    match kind {
        SourceKind::Node => seq![Chunk { start: 0, end: len as usize }],
        SourceKind::Browser => chunks_of(len),
    }
}

/// The byte ranges of a `len`-byte buffer on which to call the primitive of
/// `kind`, in the order of the calls.
pub fn fill_plan(kind: SourceKind, len: usize) -> (r: Vec<Chunk>)
    ensures
        r@ == dispatch_spec(kind, len as nat),
{
    match kind {
        SourceKind::Node => {
            let mut plan: Vec<Chunk> = Vec::new();
            plan.push(Chunk { start: 0, end: len });
            assert(plan@ =~= dispatch_spec(kind, len as nat));
            plan
        },
        SourceKind::Browser => chunk_plan(len),
    }
}

/// Whatever the source, the calls of one request cover the `len`-byte buffer
/// in offset order with no gap and no overlap, so they write exactly `len`
/// bytes. The server runtime's module is called once, on the whole buffer;
/// the browser's primitive is called `ceil(len / MAX_CHUNK)` times.
pub proof fn lemma_plan_fills_buffer(kind: SourceKind, len: nat)
    requires
        len <= usize::MAX,
    ensures
        total_len(dispatch_spec(kind, len)) == len,
        kind == SourceKind::Node ==> dispatch_spec(kind, len) == seq![
            Chunk { start: 0, end: len as usize },
        ],
        kind == SourceKind::Browser ==> covers(dispatch_spec(kind, len), len)
            && dispatch_spec(kind, len).len() == chunk_count(len),
{
    lemma_chunks_cover(len);
    if kind == SourceKind::Node {
        let plan = dispatch_spec(kind, len);
        assert(plan.drop_last() =~= Seq::<Chunk>::empty());
        assert(total_len(plan) == total_len(plan.drop_last()) + (plan.last().end
            - plan.last().start));
    }
}

/// The source kind held by a cache cell.
pub open spec fn kind_of<N, B>(c: Option<RngSource<N, B>>) -> Option<SourceKind> {
    match c {
        Some(s) => Some(s.kind_spec()),
        None => None,
    }
}

/// A cache cell after a request in which detection, when it ran, had the
/// outcome `detected`: a source once held is kept; an empty cell takes a
/// detected source and stays empty after a failure.
pub open spec fn next_cache(c: Option<SourceKind>, detected: Result<SourceKind, Error>) -> Option<
    SourceKind,
> {
    match c {
        Some(k) => Some(k),
        None => match detected {
            Ok(k) => Some(k),
            Err(_) => None,
        },
    }
}

/// The per-thread cell that keeps the chosen source for all later requests.
///
/// It starts empty. Detection runs on a request that finds it empty; a
/// detected source is stored and never replaced, and a failed detection
/// leaves the cell empty, so the next request probes the host again.
pub struct SourceCache<N, B> {
    source: Option<RngSource<N, B>>,
}

impl<N, B> View for SourceCache<N, B> {
    type V = Option<RngSource<N, B>>;

    closed spec fn view(&self) -> Option<RngSource<N, B>> {
        self.source
    }
}

impl<N, B> SourceCache<N, B> {
    /// An empty cell.
    pub fn new() -> (r: Self)
        ensures
            r@ is None,
    {
        SourceCache { source: None }
    }

    /// Whether a request must run detection first.
    pub fn needs_detection(&self) -> (r: bool)
        ensures
            r == self@ is None,
    {
        self.source.is_none()
    }

    /// The cached source, if any.
    pub fn source(&self) -> (r: Option<&RngSource<N, B>>)
        ensures
            match r {
                Some(s) => self@ == Some(*s),
                None => self@ is None,
            },
    {
        match &self.source {
            Some(s) => Some(s),
            None => None,
        }
    }

    /// Keeps `s` as the thread's source, unless one is already cached.
    pub fn store(&mut self, s: RngSource<N, B>)
        ensures
            final(self)@ == if old(self)@ is None {
                Some(s)
            } else {
                old(self)@
            },
            kind_of(final(self)@) == next_cache(kind_of(old(self)@), Ok(s.kind_spec())),
    {
        if self.source.is_none() {
            self.source = Some(s);
        }
    }
}

/// The cache after `i` requests on one thread of the host `env`, from an
/// empty cell.
pub open spec fn cache_after(env: HostEnv, i: nat) -> Option<SourceKind>
    decreases i,
{
    if i == 0 {
        None
    } else {
        next_cache(cache_after(env, (i - 1) as nat), detect_spec(env))
    }
}

/// The source that a request uses with cache `c` on host `env`, or the
/// failure that it reports.
pub open spec fn request_source(c: Option<SourceKind>, env: HostEnv) -> Result<SourceKind, Error> {
    match c {
        Some(k) => Ok(k),
        None => detect_spec(env),
    }
}

/// How many of the first `n` requests on one thread of `env` run detection.
pub open spec fn detections(env: HostEnv, n: nat) -> nat
    decreases n,
{
    if n == 0 {
        0
    } else {
        detections(env, (n - 1) as nat) + if cache_after(env, (n - 1) as nat) is None {
            1nat
        } else {
            0nat
        }
    }
}

/// On one thread, every request uses the source that detection found on the
/// first one, or reports the same failure as the first one. Where detection
/// succeeds it runs exactly once, on the first request, however many follow;
/// where it fails it runs again on each request.
pub proof fn lemma_thread_requests(env: HostEnv, n: nat)
    ensures
        forall|i: nat| i < n ==> #[trigger] request_source(cache_after(env, i), env) == detect_spec(env),
        detect_spec(env) is Ok ==> detections(env, n) == if n == 0 {
            0nat
        } else {
            1nat
        },
        detect_spec(env) is Err ==> detections(env, n) == n,
    decreases n,
{
    if n > 0 {
        lemma_thread_requests(env, (n - 1) as nat);
        lemma_cache_after(env, (n - 1) as nat);
        assert forall|i: nat| i < n implies #[trigger] request_source(cache_after(env, i), env)
            == detect_spec(env) by {
            lemma_cache_after(env, i);
        }
    }
}

/// After `i` requests the cache holds the detected source if there was at
/// least one request and detection succeeds, and nothing otherwise.
proof fn lemma_cache_after(env: HostEnv, i: nat)
    ensures
        cache_after(env, i) == if i > 0 && detect_spec(env) is Ok {
            Some(detect_spec(env)->Ok_0)
        } else {
            None
        },
    decreases i,
{
    if i > 0 {
        lemma_cache_after(env, (i - 1) as nat);
    }
}

} // verus!
