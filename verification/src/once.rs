use vstd::prelude::*;

verus! {

/// The three control states of the once-cell protocol, without the payload.
#[derive(Clone, Copy, Debug, PartialEq, Eq, Structural)]
pub enum Tag {
    /// No value is stored yet; initialization may be claimed.
    Uninit,
    /// Exactly one claimant is producing the value.
    InProgress,
    /// A value is stored and permanently readable.
    Ready,
}

/// The full abstract state of a once-cell: the control state together with
/// the stored value once there is one.
pub enum CellState<T> {
    /// No value is stored yet.
    Uninit,
    /// A producer is running; the slot is owned exclusively by the claimant.
    InProgress,
    /// The published value.
    Ready(T),
}

/// One transition of the once-cell protocol.
pub enum CellEvent<T> {
    /// `Uninit -> InProgress`: a caller wins the right to initialize.
    Claim,
    /// `InProgress -> Ready`: the claimant stores the produced value.
    Publish(T),
    /// `InProgress -> Uninit`: the claimant's producer aborted, so the claim
    /// is released and a later caller may retry initialization.
    Rollback,
}

impl<T> CellState<T> {
    /// The control state alone.
    pub open spec fn tag(self) -> Tag {
        match self {
            CellState::Uninit => Tag::Uninit,
            CellState::InProgress => Tag::InProgress,
            CellState::Ready(_) => Tag::Ready,
        }
    }

    /// The stored value; meaningful only in the ready state.
    pub open spec fn value(self) -> T
        recommends
            self is Ready,
    {
        self->0
    }
}

/// Whether the event `e` may fire from the state `s`.
pub open spec fn enabled<T>(s: CellState<T>, e: CellEvent<T>) -> bool {
    match e {
        CellEvent::Claim => s is Uninit,
        CellEvent::Publish(_) => s is InProgress,
        CellEvent::Rollback => s is InProgress,
    }
}

/// The state after `e` fires from `s`; an event that is not enabled leaves
/// the state unchanged.
pub open spec fn step<T>(s: CellState<T>, e: CellEvent<T>) -> CellState<T> {
    if enabled(s, e) {
        match e {
            CellEvent::Claim => CellState::InProgress,
            CellEvent::Publish(v) => CellState::Ready(v),
            CellEvent::Rollback => CellState::Uninit,
        }
    } else {
        s
    }
}

/// The state reached by firing the events of `es` in order, starting at `s0`.
pub open spec fn run<T>(s0: CellState<T>, es: Seq<CellEvent<T>>) -> CellState<T>
    decreases es.len(),
{
    if es.len() == 0 {
        s0
    } else {
        step(run(s0, es.drop_last()), es.last())
    }
}

/// Whether every event of `es` is enabled at the state it fires from.
pub open spec fn valid_trace<T>(s0: CellState<T>, es: Seq<CellEvent<T>>) -> bool
    decreases es.len(),
{
    es.len() == 0 || (valid_trace(s0, es.drop_last()) && enabled(
        run(s0, es.drop_last()),
        es.last(),
    ))
}

/// How many values were published along `es`: how often a producer ran to
/// completion.
pub open spec fn publish_count<T>(es: Seq<CellEvent<T>>) -> nat
    decreases es.len(),
{
    if es.len() == 0 {
        0
    } else {
        publish_count(es.drop_last()) + (if es.last() is Publish {
            1nat
        } else {
            0nat
        })
    }
}

/// How many claims were won along `es`: how often a producer was started.
pub open spec fn claim_count<T>(es: Seq<CellEvent<T>>) -> nat
    decreases es.len(),
{
    if es.len() == 0 {
        0
    } else {
        claim_count(es.drop_last()) + (if es.last() is Claim {
            1nat
        } else {
            0nat
        })
    }
}

/// How many claims were released along `es`: how often a producer aborted.
pub open spec fn rollback_count<T>(es: Seq<CellEvent<T>>) -> nat
    decreases es.len(),
{
    if es.len() == 0 {
        0
    } else {
        rollback_count(es.drop_last()) + (if es.last() is Rollback {
            1nat
        } else {
            0nat
        })
    }
}

/// Appending one event steps the run once, and keeps the trace valid exactly
/// when the event is enabled at the end of the old trace.
proof fn lemma_run_push<T>(s0: CellState<T>, es: Seq<CellEvent<T>>, e: CellEvent<T>)
    ensures
        run(s0, es.push(e)) == step(run(s0, es), e),
        valid_trace(s0, es.push(e)) <==> (valid_trace(s0, es) && enabled(run(s0, es), e)),
{
    assert(es.push(e).drop_last() =~= es);
    assert(es.push(e).last() == e);
}

/// The ready state is terminal: no sequence of events moves a cell out of it
/// or changes the value it holds.
pub proof fn lemma_ready_is_forever<T>(s: CellState<T>, es: Seq<CellEvent<T>>)
    requires
        s is Ready,
    ensures
        run(s, es) == s,
    decreases es.len(),
{
    if es.len() > 0 {
        lemma_ready_is_forever(s, es.drop_last());
    }
}

/// Running a concatenated trace runs its two halves in order.
pub proof fn lemma_run_app<T>(s0: CellState<T>, a: Seq<CellEvent<T>>, b: Seq<CellEvent<T>>)
    ensures
        run(s0, a + b) == run(run(s0, a), b),
    decreases b.len(),
{
    if b.len() == 0 {
        assert(a + b =~= a);
    } else {
        lemma_run_app(s0, a, b.drop_last());
        assert((a + b).drop_last() =~= a + b.drop_last());
    }
}

/// Once a value is published it is fixed: every extension of a history that
/// reached `Ready(v)` still shows `Ready(v)`, so all readers, however late,
/// observe the one published value.
pub proof fn lemma_value_is_permanent<T>(
    s0: CellState<T>,
    es: Seq<CellEvent<T>>,
    ext: Seq<CellEvent<T>>,
    v: T,
)
    requires
        run(s0, es) == CellState::Ready(v),
    ensures
        run(s0, es + ext) == CellState::Ready(v),
{
    lemma_run_app(s0, es, ext);
    lemma_ready_is_forever(CellState::Ready(v), ext);
}

/// Along any protocol-respecting history that starts uninitialized, a value
/// is published exactly once if the history ends ready and never otherwise:
/// initialization completes at most once over the life of a cell.
pub proof fn lemma_publish_at_most_once<T>(es: Seq<CellEvent<T>>)
    requires
        valid_trace(CellState::<T>::Uninit, es),
    ensures
        publish_count(es) == if run(CellState::<T>::Uninit, es) is Ready {
            1nat
        } else {
            0nat
        },
    decreases es.len(),
{
    if es.len() > 0 {
        lemma_publish_at_most_once::<T>(es.drop_last());
    }
}

/// Every start of a producer is accounted for: along a protocol-respecting
/// history from the uninitialized state, each won claim either published,
/// rolled back, or is the one still in progress at the end. So a producer
/// runs exactly once, unless every prior attempt aborted: with the history
/// ended ready, the claims number exactly one more than the rollbacks.
pub proof fn lemma_every_attempt_is_accounted_for<T>(es: Seq<CellEvent<T>>)
    requires
        valid_trace(CellState::<T>::Uninit, es),
    ensures
        claim_count(es) == publish_count(es) + rollback_count(es) + (if run(
            CellState::<T>::Uninit,
            es,
        ) is InProgress {
            1nat
        } else {
            0nat
        }),
    decreases es.len(),
{
    if es.len() > 0 {
        lemma_every_attempt_is_accounted_for::<T>(es.drop_last());
    }
}

/// The history of a cell whose first attempt aborted and whose second
/// attempt published `v`.
pub open spec fn retry_history<T>(v: T) -> Seq<CellEvent<T>> {
    seq![
        CellEvent::<T>::Claim,
        CellEvent::<T>::Rollback,
        CellEvent::<T>::Claim,
        CellEvent::Publish(v),
    ]
}

/// An aborted attempt does not poison the cell: the history of a claim that
/// rolled back followed by a claim that published respects the protocol from
/// the uninitialized state, ends ready with the retried producer's value,
/// and shows two started and one completed initialization.
pub proof fn lemma_retry_after_abort<T>(v: T)
    ensures
        valid_trace(CellState::<T>::Uninit, retry_history(v)),
        run(CellState::<T>::Uninit, retry_history(v)) == CellState::Ready(v),
        claim_count(retry_history(v)) == 2,
        publish_count(retry_history(v)) == 1,
{
    let h0 = Seq::<CellEvent<T>>::empty();
    let h1 = h0.push(CellEvent::<T>::Claim);
    let h2 = h1.push(CellEvent::<T>::Rollback);
    let h3 = h2.push(CellEvent::<T>::Claim);
    let h4 = h3.push(CellEvent::Publish(v));
    lemma_run_push(CellState::<T>::Uninit, h0, CellEvent::<T>::Claim);
    lemma_run_push(CellState::<T>::Uninit, h1, CellEvent::<T>::Rollback);
    lemma_run_push(CellState::<T>::Uninit, h2, CellEvent::<T>::Claim);
    lemma_run_push(CellState::<T>::Uninit, h3, CellEvent::Publish(v));
    assert(retry_history(v) =~= h4);
    assert(h4.drop_last() =~= h3);
    assert(h3.drop_last() =~= h2);
    assert(h2.drop_last() =~= h1);
    assert(h1.drop_last() =~= h0);
    assert(h1.last() == CellEvent::<T>::Claim);
    assert(h2.last() == CellEvent::<T>::Rollback);
    assert(h3.last() == CellEvent::<T>::Claim);
    assert(h4.last() == CellEvent::Publish(v));
    assert(claim_count(h0) == 0 && publish_count(h0) == 0);
    assert(claim_count(h1) == 1 && publish_count(h1) == 0);
    assert(claim_count(h2) == 1 && publish_count(h2) == 0);
    assert(claim_count(h3) == 2 && publish_count(h3) == 0);
    assert(claim_count(h4) == 2 && publish_count(h4) == 1);
}

/// A lazily-initialized, single-assignment cell.
///
/// The slot and the control state guarding it live in one tagged union, so a
/// value can only be read once the cell has reached the ready state, and the
/// writer's exclusive access is enforced by ownership: the transitions take
/// the cell by `&mut`. A ghost history records every transition the cell
/// ever took, and well-formedness ties the current state to that history, so
/// the trace laws above hold of every live cell.
pub struct OnceCell<T> {
    state: CellState<T>,
    log: Ghost<Seq<CellEvent<T>>>,
}

impl<T> View for OnceCell<T> {
    type V = CellState<T>;

    closed spec fn view(&self) -> CellState<T> {
        self.state
    }
}

impl<T> OnceCell<T> {
    /// Every transition the cell has taken, oldest first.
    pub closed spec fn history(&self) -> Seq<CellEvent<T>> {
        self.log@
    }

    /// The recorded history respects the protocol, and the cell's state is
    /// exactly what that history reaches from the uninitialized state.
    pub closed spec fn wf(&self) -> bool {
        &&& valid_trace(CellState::<T>::Uninit, self.log@)
        &&& run(CellState::<T>::Uninit, self.log@) == self@
    }

    /// Creates a new, uninitialized cell.
    pub fn new() -> (cell: Self)
        ensures
            cell.wf(),
            cell@ is Uninit,
            cell.history() == Seq::<CellEvent<T>>::empty(),
    {
        OnceCell { state: CellState::Uninit, log: Ghost(Seq::empty()) }
    }

    /// The current control state.
    pub fn tag(&self) -> (t: Tag)
        ensures
            t == self@.tag(),
    {
        match &self.state {
            CellState::Uninit => Tag::Uninit,
            CellState::InProgress => Tag::InProgress,
            CellState::Ready(_) => Tag::Ready,
        }
    }

    /// Returns the stored value, or `None` while no value is published.
    pub fn get(&self) -> (r: Option<&T>)
        ensures
            match r {
                Some(v) => self@ == CellState::Ready(*v),
                None => !(self@ is Ready),
            },
    {
        match &self.state {
            CellState::Ready(v) => Some(v),
            _ => None,
        }
    }

    /// `Uninit -> InProgress`: wins the claim exactly when no value is
    /// published and nobody holds the claim; the sequential counterpart of
    /// the atomic compare-and-swap guarding initialization.
    pub fn try_claim(&mut self) -> (claimed: bool)
        requires
            old(self).wf(),
        ensures
            final(self).wf(),
            claimed == (old(self)@ is Uninit),
            claimed ==> final(self)@ is InProgress && final(self).history() == old(
                self,
            ).history().push(CellEvent::<T>::Claim),
            !claimed ==> *final(self) == *old(self),
    {
        match &self.state {
            CellState::Uninit => {
                self.state = CellState::InProgress;
                self.log = Ghost(self.log@.push(CellEvent::Claim));
                proof {
                    lemma_run_push(CellState::<T>::Uninit, old(self).log@, CellEvent::Claim);
                }
                true
            },
            _ => false,
        }
    }

    /// `InProgress -> Ready`: the claimant stores the produced value; from
    /// here on the cell never changes again.
    pub fn publish(&mut self, value: T)
        requires
            old(self).wf(),
            old(self)@ is InProgress,
        ensures
            final(self).wf(),
            final(self)@ == CellState::Ready(value),
            final(self).history() == old(self).history().push(CellEvent::Publish(value)),
    {
        self.log = Ghost(self.log@.push(CellEvent::Publish(value)));
        self.state = CellState::Ready(value);
        proof {
            lemma_run_push(CellState::<T>::Uninit, old(self).log@, CellEvent::Publish(value));
        }
    }

    /// `InProgress -> Uninit`: releases an aborted claim, so the cell is not
    /// poisoned and a later caller gets a fresh chance to initialize it.
    pub fn rollback(&mut self)
        requires
            old(self).wf(),
            old(self)@ is InProgress,
        ensures
            final(self).wf(),
            final(self)@ is Uninit,
            final(self).history() == old(self).history().push(CellEvent::<T>::Rollback),
    {
        self.log = Ghost(self.log@.push(CellEvent::Rollback));
        self.state = CellState::Uninit;
        proof {
            lemma_run_push(CellState::<T>::Uninit, old(self).log@, CellEvent::<T>::Rollback);
        }
    }

    /// Returns a reference to the stored value, running `producer` to create
    /// it first if the cell is still uninitialized.
    ///
    /// When the cell is already ready, it is left untouched — the history
    /// shows that the producer was not started — and the previously
    /// published value is returned.
    pub fn get_or_init<F: FnOnce() -> T>(&mut self, producer: F) -> (r: &T)
        requires
            old(self).wf(),
            !(old(self)@ is InProgress),
            call_requires(producer, ()),
        ensures
            final(self).wf(),
            final(self)@ == CellState::Ready(*r),
            old(self)@ is Ready ==> *final(self) == *old(self) && old(self)@ == CellState::Ready(
                *r,
            ),
            old(self)@ is Uninit ==> call_ensures(producer, (), *r) && final(self).history() == old(
                self,
            ).history() + seq![CellEvent::<T>::Claim, CellEvent::Publish(*r)],
    {
        if self.try_claim() {
            let value = producer();
            self.publish(value);
            proof {
                assert(self.log@ =~= old(self).log@ + seq![
                    CellEvent::<T>::Claim,
                    CellEvent::Publish(self@.value()),
                ]);
            }
        }
        match &self.state {
            CellState::Ready(v) => v,
            CellState::Uninit => unreached(),
            CellState::InProgress => unreached(),
        }
    }

    /// Returns a reference to the stored value, running `producer` first if
    /// the cell is still uninitialized. A producer that fails models an
    /// aborted initialization: its error is handed back unchanged, and the
    /// cell rolls back to the uninitialized state rather than being
    /// poisoned, so a later call may retry.
    pub fn get_or_try_init<E, F: FnOnce() -> Result<T, E>>(&mut self, producer: F) -> (r: Result<
        &T,
        E,
    >)
        requires
            old(self).wf(),
            !(old(self)@ is InProgress),
            call_requires(producer, ()),
        ensures
            final(self).wf(),
            old(self)@ is Ready ==> *final(self) == *old(self) && (r matches Ok(v) && old(self)@
                == CellState::Ready(*v)),
            match r {
                Ok(v) => final(self)@ == CellState::Ready(*v) && (old(self)@ is Uninit
                    ==> call_ensures(producer, (), Ok::<T, E>(*v)) && final(self).history() == old(
                    self,
                ).history() + seq![CellEvent::<T>::Claim, CellEvent::Publish(*v)]),
                Err(e) => old(self)@ is Uninit && final(self)@ is Uninit && call_ensures(
                    producer,
                    (),
                    Err::<T, E>(e),
                ) && final(self).history() == old(self).history() + seq![
                    CellEvent::<T>::Claim,
                    CellEvent::<T>::Rollback,
                ],
            },
    {
        if self.try_claim() {
            match producer() {
                Ok(value) => {
                    self.publish(value);
                    proof {
                        assert(self.log@ =~= old(self).log@ + seq![
                            CellEvent::<T>::Claim,
                            CellEvent::Publish(self@.value()),
                        ]);
                    }
                },
                Err(e) => {
                    self.rollback();
                    proof {
                        assert(self.log@ =~= old(self).log@ + seq![
                            CellEvent::<T>::Claim,
                            CellEvent::<T>::Rollback,
                        ]);
                    }
                    return Err(e);
                },
            }
        }
        match &self.state {
            CellState::Ready(v) => Ok(v),
            CellState::Uninit => unreached(),
            CellState::InProgress => unreached(),
        }
    }
}

/// Any well-formed cell completed initialization at most once over its whole
/// history — exactly once when it is ready — and every initialization it
/// ever started either completed, rolled back, or is the one still running.
pub proof fn lemma_cell_inits_at_most_once<T>(cell: OnceCell<T>)
    requires
        cell.wf(),
    ensures
        publish_count(cell.history()) <= 1,
        cell@ is Ready <==> publish_count(cell.history()) == 1,
        claim_count(cell.history()) == publish_count(cell.history()) + rollback_count(
            cell.history(),
        ) + (if cell@ is InProgress {
            1nat
        } else {
            0nat
        }),
{
    lemma_publish_at_most_once::<T>(cell.history());
    lemma_every_attempt_is_accounted_for::<T>(cell.history());
}

} // verus!
