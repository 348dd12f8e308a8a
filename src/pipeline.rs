//! Decorators and the pipeline that composes them around a leaf or adapter.

use vstd::prelude::*;
use crate::headers::{
    HeaderMap, HeaderSeq, count_pair, has_name, header_value_accepted, lemma_absent_name_count,
    normalized_header_name, parse_header_name, valid_header_value,
};
use crate::stage::{AddService, Readiness};

verus! {

/// The model of a decorator.
pub enum DecoratorModel {
    Timeout(u64),
    AppendHeader(Seq<char>, Seq<char>),
}

/// A stage wrapper: a deadline on the inner stage, or a header appended to
/// every request on its way in.
#[derive(Debug, Clone)]
pub enum Decorator {
    Timeout { deadline_ms: u64 },
    AppendHeader { name: String, value: String },
}

impl View for Decorator {
    type V = DecoratorModel;

    open spec fn view(&self) -> DecoratorModel {
        match self {
            Decorator::Timeout { deadline_ms } => DecoratorModel::Timeout(*deadline_ms),
            Decorator::AppendHeader { name, value } => DecoratorModel::AppendHeader(name@, value@),
        }
    }
}

/// Invalid static configuration, found when a decorator is built.
#[derive(Debug, Clone, Copy, PartialEq, Eq, Structural)]
pub enum CompositionError {
    InvalidHeaderName,
    InvalidHeaderValue,
}

/// The failure of a composed stage: the inner stage's own error, unchanged,
/// or a deadline that elapsed first.
#[derive(Debug, Clone, Copy, PartialEq, Eq, Structural)]
pub enum StageError<E> {
    Inner(E),
    Timeout,
}

impl Decorator {
    pub fn timeout(deadline_ms: u64) -> (r: Decorator)
        ensures
            r@ == DecoratorModel::Timeout(deadline_ms),
    {
        Decorator::Timeout { deadline_ms }
    }

    /// A decorator that appends `(name, value)`, keeping the values already
    /// held under that name. The name is stored normalised.
    pub fn append_header(name: &str, value: &str) -> (r: Result<Decorator, CompositionError>)
        ensures
            normalized_header_name(name@) is None ==> r == Err::<Decorator, CompositionError>(
                CompositionError::InvalidHeaderName,
            ),
            normalized_header_name(name@) is Some && !valid_header_value(value@) ==> r == Err::<
                Decorator,
                CompositionError,
            >(CompositionError::InvalidHeaderValue),
            normalized_header_name(name@) is Some && valid_header_value(value@) ==> r is Ok
                && r->Ok_0@ == DecoratorModel::AppendHeader(
                normalized_header_name(name@)->Some_0,
                value@,
            ),
    {
        match parse_header_name(name) {
            None => Err(CompositionError::InvalidHeaderName),
            Some(n) => {
                if header_value_accepted(value) {
                    Ok(Decorator::AppendHeader { name: n, value: value.to_string() })
                } else {
                    Err(CompositionError::InvalidHeaderValue)
                }
            },
        }
    }
}

/// The headers a leaf receives: each header decorator, outermost first,
/// appends its pair.
pub open spec fn forward_spec(ds: Seq<DecoratorModel>, h: HeaderSeq) -> HeaderSeq
    decreases ds.len(),
{
    if ds.len() == 0 {
        h
    } else {
        let r = forward_spec(ds.drop_last(), h);
        match ds.last() {
            DecoratorModel::AppendHeader(k, v) => r.push((k, v)),
            DecoratorModel::Timeout(_) => r,
        }
    }
}

/// Whether an inner stage that took `t` ms finished before every deadline.
pub open spec fn within_deadlines(ds: Seq<DecoratorModel>, t: u64) -> bool {
    forall|i: int| 0 <= i < ds.len() ==> within_deadline(#[trigger] ds[i], t)
}

pub open spec fn within_deadline(d: DecoratorModel, t: u64) -> bool {
    match d {
        DecoratorModel::Timeout(deadline) => t < deadline,
        DecoratorModel::AppendHeader(_, _) => true,
    }
}

/// The outcome of the composed stage, given the inner outcome and the time
/// `t` in ms the inner stage took.
pub open spec fn settle_spec<R, E>(ds: Seq<DecoratorModel>, inner: Result<R, E>, t: u64) -> Result<
    R,
    StageError<E>,
> {
    if within_deadlines(ds, t) {
        match inner {
            Ok(x) => Ok(x),
            Err(e) => Err(StageError::Inner(e)),
        }
    } else {
        Err(StageError::Timeout)
    }
}

/// Whether the composition holds a timeout: a timeout starts its timer only
/// when invoked, so it is ready whatever its inner stage says.
pub open spec fn has_timeout(ds: Seq<DecoratorModel>) -> bool {
    exists|i: int| 0 <= i < ds.len() && (#[trigger] ds[i]) is Timeout
}

/// The readiness of the composition given the inner stage's.
pub open spec fn readiness_spec<E>(ds: Seq<DecoratorModel>, inner: Readiness<E>) -> Readiness<
    StageError<E>,
> {
    if has_timeout(ds) {
        Readiness::Ready
    } else {
        match inner {
            Readiness::Ready => Readiness::Ready,
            Readiness::NotReady => Readiness::NotReady,
            Readiness::Failed(e) => Readiness::Failed(StageError::Inner(e)),
        }
    }
}

/// The phase of one invocation under a timeout.
pub enum RacePhase<R, E> {
    Idle,
    Racing { deadline_ms: u64 },
    Resolved(Result<R, StageError<E>>),
}

/// What happened next during an invocation under a timeout.
pub enum RaceEvent<R, E> {
    Invoke,
    InnerDone { outcome: Result<R, E>, elapsed_ms: u64 },
    DeadlineElapsed,
}

pub open spec fn race_step_spec<R, E>(phase: RacePhase<R, E>, event: RaceEvent<R, E>, deadline_ms: u64) -> RacePhase<
    R,
    E,
> {
    match phase {
        RacePhase::Idle => match event {
            RaceEvent::Invoke => RacePhase::Racing { deadline_ms },
            _ => RacePhase::Idle,
        },
        RacePhase::Racing { deadline_ms: d } => match event {
            RaceEvent::InnerDone { outcome, elapsed_ms } => RacePhase::Resolved(
                settle_spec(seq![DecoratorModel::Timeout(d)], outcome, elapsed_ms),
            ),
            RaceEvent::DeadlineElapsed => RacePhase::Resolved(Err(StageError::Timeout)),
            RaceEvent::Invoke => RacePhase::Racing { deadline_ms: d },
        },
        RacePhase::Resolved(r) => RacePhase::Resolved(r),
    }
}

/// One transition of a timeout race: an invocation starts the race; the
/// first of the inner outcome and the deadline resolves it; a resolved race
/// stays resolved and later events are discarded.
pub fn race_step<R, E>(phase: RacePhase<R, E>, event: RaceEvent<R, E>, deadline_ms: u64) -> (r: RacePhase<R, E>)
    ensures
        r == race_step_spec(phase, event, deadline_ms),
{
    match phase {
        RacePhase::Idle => match event {
            RaceEvent::Invoke => RacePhase::Racing { deadline_ms },
            _ => RacePhase::Idle,
        },
        RacePhase::Racing { deadline_ms: d } => match event {
            RaceEvent::InnerDone { outcome, elapsed_ms } => {
                if elapsed_ms < d {
                    match outcome {
                        Ok(x) => RacePhase::Resolved(Ok(x)),
                        Err(e) => RacePhase::Resolved(Err(StageError::Inner(e))),
                    }
                } else {
                    proof {
                        assert(!within_deadline(seq![DecoratorModel::Timeout(d)][0], elapsed_ms));
                    }
                    RacePhase::Resolved(Err(StageError::Timeout))
                }
            },
            RaceEvent::DeadlineElapsed => RacePhase::Resolved(Err(StageError::Timeout)),
            RaceEvent::Invoke => RacePhase::Racing { deadline_ms: d },
        },
        RacePhase::Resolved(r) => RacePhase::Resolved(r),
    }
}

/// Decorators composed around one leaf or adapter; the first added is the
/// outermost. Built once, then reused for every request.
pub struct Pipeline {
    pub decorators: Vec<Decorator>,
}

impl View for Pipeline {
    type V = Seq<DecoratorModel>;

    open spec fn view(&self) -> Seq<DecoratorModel> {
        self.decorators@.map_values(|d: Decorator| d@)
    }
}

impl Pipeline {
    /// The empty composition.
    pub fn new() -> (r: Pipeline)
        ensures
            r@ == Seq::<DecoratorModel>::empty(),
    {
        let r = Pipeline { decorators: Vec::new() };
        assert(r@ =~= Seq::<DecoratorModel>::empty());
        r
    }

    /// Adds `d` inside every decorator added before it.
    pub fn layer(self, d: Decorator) -> (r: Pipeline)
        ensures
            r@ == self@.push(d@),
    {
        let mut ds = self.decorators;
        ds.push(d);
        let r = Pipeline { decorators: ds };
        assert(r@ =~= self@.push(d@));
        r
    }

    /// Readiness of the composition: ready when it holds a timeout, else what
    /// the inner stage reported, its failure wrapped unchanged.
    pub fn poll_ready<E>(&self, inner: Readiness<E>) -> (r: Readiness<StageError<E>>)
        ensures
            r == readiness_spec(self@, inner),
    {
        let mut i: usize = 0;
        while i < self.decorators.len()
            invariant
                i <= self.decorators@.len(),
                forall|j: int| 0 <= j < i ==> !(#[trigger] self@[j] is Timeout),
            decreases self.decorators@.len() - i,
        {
            assert(self@[i as int] == self.decorators@[i as int]@);
            match &self.decorators[i] {
                Decorator::Timeout { .. } => {
                    return Readiness::Ready;
                },
                Decorator::AppendHeader { .. } => {},
            }
            i += 1;
        }
        match inner {
            Readiness::Ready => Readiness::Ready,
            Readiness::NotReady => Readiness::NotReady,
            Readiness::Failed(e) => Readiness::Failed(StageError::Inner(e)),
        }
    }

    /// The headers the inner stage receives for a request carrying `headers`.
    pub fn forward_headers(&self, headers: HeaderMap) -> (r: HeaderMap)
        ensures
            r@ == forward_spec(self@, headers@),
    {
        let mut h = headers;
        let mut i: usize = 0;
        while i < self.decorators.len()
            invariant
                i <= self.decorators@.len(),
                h@ == forward_spec(self@.take(i as int), headers@),
            decreases self.decorators@.len() - i,
        {
            assert(self@.take(i + 1).drop_last() =~= self@.take(i as int));
            assert(self@.take(i + 1).last() == self.decorators@[i as int]@);
            match &self.decorators[i] {
                Decorator::AppendHeader { name, value } => {
                    h.append(name.clone(), value.clone());
                },
                Decorator::Timeout { .. } => {},
            }
            i += 1;
        }
        assert(self@.take(i as int) =~= self@);
        h
    }

    /// The earliest deadline of the composition, if it has one: past it the
    /// inner outcome no longer matters.
    pub fn deadline(&self) -> (r: Option<u64>)
        ensures
            forall|t: u64| #[trigger] within_deadlines(self@, t) <==> (r is None || t < r->Some_0),
    {
        let mut best: Option<u64> = None;
        let mut i: usize = 0;
        while i < self.decorators.len()
            invariant
                i <= self.decorators@.len(),
                forall|t: u64| #[trigger]
                    within_deadlines(self@.take(i as int), t) <==> (best is None || t
                        < best->Some_0),
            decreases self.decorators@.len() - i,
        {
            let ghost pre = self@.take(i as int);
            let ghost post = self@.take(i + 1);
            assert(post.drop_last() =~= pre);
            assert(post[i as int] == self.decorators@[i as int]@);
            match &self.decorators[i] {
                Decorator::Timeout { deadline_ms } => {
                    best = match best {
                        Some(b) => if *deadline_ms < b {
                            Some(*deadline_ms)
                        } else {
                            Some(b)
                        },
                        None => Some(*deadline_ms),
                    };
                },
                Decorator::AppendHeader { .. } => {},
            }
            assert forall|t: u64| #[trigger]
                within_deadlines(post, t) <==> (best is None || t < best->Some_0) by {
                if within_deadlines(post, t) {
                    assert forall|j: int| 0 <= j < pre.len() implies within_deadline(
                        #[trigger] pre[j],
                        t,
                    ) by {
                        assert(pre[j] == post[j]);
                    }
                    assert(within_deadline(post[i as int], t));
                } else {
                    let j = choose|j: int|
                        0 <= j < post.len() && !within_deadline(#[trigger] post[j], t);
                    if j < i {
                        assert(pre[j] == post[j]);
                        assert(!within_deadlines(pre, t));
                    }
                }
                if within_deadlines(pre, t) && within_deadline(post[i as int], t) {
                    assert forall|j: int| 0 <= j < post.len() implies within_deadline(
                        #[trigger] post[j],
                        t,
                    ) by {
                        if j < i {
                            assert(pre[j] == post[j]);
                        }
                    }
                }
            }
            i += 1;
        }
        assert(self@.take(i as int) =~= self@);
        best
    }

    /// The outcome of the composed stage from the inner outcome and the time
    /// in ms the inner stage took. Inner errors pass through unchanged.
    pub fn settle<R, E>(&self, inner: Result<R, E>, elapsed_ms: u64) -> (r: Result<R, StageError<E>>)
        ensures
            r == settle_spec(self@, inner, elapsed_ms),
    {
        let d = self.deadline();
        let met = match d {
            None => true,
            Some(b) => elapsed_ms < b,
        };
        if met {
            match inner {
                Ok(x) => Ok(x),
                Err(e) => Err(StageError::Inner(e)),
            }
        } else {
            Err(StageError::Timeout)
        }
    }

    /// The outcome when the earliest deadline elapsed before the inner stage
    /// finished: its result is discarded.
    pub fn expired<R, E>(&self) -> (r: Result<R, StageError<E>>)
        ensures
            r == Err::<R, StageError<E>>(StageError::Timeout),
    {
        Err(StageError::Timeout)
    }

    /// Runs the adding leaf inside this composition, its answer having taken
    /// `elapsed_ms`.
    pub fn call_add(&self, leaf: &mut AddService, req: (i32, i32), elapsed_ms: u64) -> (r: Result<
        i32,
        StageError<&'static str>,
    >)
        requires
            i32::MIN <= req.0 + req.1 <= i32::MAX,
        ensures
            r == settle_spec(self@, Ok::<i32, &'static str>((req.0 + req.1) as i32), elapsed_ms),
    {
        let inner = leaf.call(req);
        self.settle(inner, elapsed_ms)
    }
}

/// The empty composition is the identity: the leaf sees the request's
/// headers unchanged, and a successful leaf answer comes back as it is.
pub proof fn law_empty_composition_is_identity<R, E>(h: HeaderSeq, x: R, t: u64)
    ensures
        forward_spec(Seq::<DecoratorModel>::empty(), h) == h,
        settle_spec(Seq::<DecoratorModel>::empty(), Ok::<R, E>(x), t) == Ok::<R, StageError<E>>(x),
{
}

/// A single timeout with deadline `d` around a stage that took `t` ms
/// succeeds exactly when `t < d`, with the inner outcome; otherwise it fails
/// with a timeout.
pub proof fn law_timeout_decides<R, E>(d: u64, inner: Result<R, E>, t: u64)
    ensures
        t < d ==> settle_spec(seq![DecoratorModel::Timeout(d)], inner, t) == match inner {
            Ok(x) => Ok(x),
            Err(e) => Err(StageError::Inner(e)),
        },
        t >= d ==> settle_spec(seq![DecoratorModel::Timeout(d)], inner, t) == Err::<
            R,
            StageError<E>,
        >(StageError::Timeout),
{
    let ds = seq![DecoratorModel::Timeout(d)];
    if t >= d {
        assert(!within_deadline(ds[0], t));
    }
}

/// Appending `(k, v)` to a request that holds no header named `k` forwards
/// exactly one `(k, v)` pair, and no other pair named `k`.
pub proof fn law_append_once(h: HeaderSeq, k: Seq<char>, v: Seq<char>)
    requires
        !has_name(h, k),
    ensures
        count_pair(forward_spec(seq![DecoratorModel::AppendHeader(k, v)], h), k, v) == 1,
        forall|i: int|
            0 <= i < forward_spec(seq![DecoratorModel::AppendHeader(k, v)], h).len() && (
            #[trigger] forward_spec(seq![DecoratorModel::AppendHeader(k, v)], h)[i]).0 == k ==> i
                == h.len(),
{
    let ds = seq![DecoratorModel::AppendHeader(k, v)];
    assert(ds.drop_last() =~= Seq::<DecoratorModel>::empty());
    assert(forward_spec(ds.drop_last(), h) == h);
    assert(ds.last() == DecoratorModel::AppendHeader(k, v));
    let f = forward_spec(ds, h);
    assert(f == h.push((k, v)));
    assert(f.drop_last() =~= h);
    lemma_absent_name_count(h, k, v);
    assert forall|i: int| 0 <= i < f.len() && (#[trigger] f[i]).0 == k implies i == h.len() by {
        if i < h.len() {
            assert(f[i] == h[i]);
        }
    }
}

/// Appending `(k, v2)` to a request that holds `(k, v1)` at position `i`
/// keeps `(k, v1)` where it was and puts `(k, v2)` after it.
pub proof fn law_append_keeps_existing(h: HeaderSeq, i: int, k: Seq<char>, v1: Seq<char>, v2: Seq<char>)
    requires
        0 <= i < h.len(),
        h[i] == (k, v1),
    ensures
        forward_spec(seq![DecoratorModel::AppendHeader(k, v2)], h)[i] == (k, v1),
        forward_spec(seq![DecoratorModel::AppendHeader(k, v2)], h)[h.len() as int] == (k, v2),
        i < h.len(),
        forward_spec(seq![DecoratorModel::AppendHeader(k, v2)], h).len() == h.len() + 1,
{
    let ds = seq![DecoratorModel::AppendHeader(k, v2)];
    assert(ds.drop_last() =~= Seq::<DecoratorModel>::empty());
    assert(forward_spec(ds.drop_last(), h) == h);
    assert(ds.last() == DecoratorModel::AppendHeader(k, v2));
    assert(forward_spec(ds, h) == h.push((k, v2)));
}

} // verus!
