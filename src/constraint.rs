//! Constraints over a timeline of experienced events, and their chaining.
use vstd::prelude::*;
use crate::error::{Error, Rule};

verus! {

/// A closed span of time.
#[derive(Clone, Copy, Debug, PartialEq, Eq, Structural)]
pub struct Interval {
    pub lo: u64,
    pub hi: u64,
}

/// Whether the two spans share an instant.
pub open spec fn overlap(a: Interval, b: Interval) -> bool {
    a.lo <= b.hi && b.lo <= a.hi
}

impl Interval {
    pub fn overlaps(&self, other: &Interval) -> (r: bool)
        ensures
            r == overlap(*self, *other),
    {
        self.lo <= other.hi && other.lo <= self.hi
    }
}

/// An event as experienced by an entity: one unit of a subject's timeline.
pub struct ExperiencedEvent {
    /// The experienced event.
    pub event: u64,
    /// When the event happens.
    pub interval: Interval,
    /// The entity experiencing the event.
    pub entity: u64,
    /// The entities the experience holds a profile of.
    pub profiles: Vec<u64>,
    /// Whether the experience ends its entity's timeline.
    pub terminal: bool,
}

impl crate::graph::Identify for ExperiencedEvent {
    open spec fn key(&self) -> u64 {
        self.event
    }

    fn id(&self) -> (r: u64) {
        self.event
    }
}

/// Whether `u` references the entity `e`, as its own entity or through a profile.
pub open spec fn references(u: ExperiencedEvent, e: u64) -> bool {
    u.entity == e || u.profiles@.contains(e)
}

impl ExperiencedEvent {
    pub fn references(&self, e: u64) -> (r: bool)
        ensures
            r == references(*self, e),
    {
        if self.entity == e {
            return true;
        }
        let mut i: usize = 0;
        while i < self.profiles.len()
            invariant
                i <= self.profiles@.len(),
                forall|j: int| 0 <= j < i ==> self.profiles@[j] != e,
            decreases self.profiles@.len() - i,
        {
            if self.profiles[i] == e {
                return true;
            }
            i = i + 1;
        }
        false
    }
}

/// A Constraint is a condition that must be satisfied.
///
/// It is fed the units of a timeline one at a time and gives its verdict at the end.
pub trait Constraint: Sized {
    /// The constraint once it has taken `unit` into account, or the violation that
    /// `unit` alone already shows.
    spec fn fed(self, unit: ExperiencedEvent) -> Result<Self, Error>;

    /// The final verdict of the constraint.
    spec fn verdict(self) -> Result<(), Error>;

    /// Takes the given unit into account; fails if, and only if, it already
    /// violates the constraint.
    fn with(self, unit: &ExperiencedEvent) -> (r: Result<Self, Error>)
        ensures
            r == self.fed(*unit),
    ;

    /// The final verdict of the constraint.
    fn result(self) -> (r: Result<(), Error>)
        ensures
            r == self.verdict(),
    ;
}

/// The empty constraint: it holds whatever it is fed.
impl Constraint for () {
    open spec fn fed(self, unit: ExperiencedEvent) -> Result<Self, Error> {
        Ok(())
    }

    open spec fn verdict(self) -> Result<(), Error> {
        Ok(())
    }

    fn with(self, unit: &ExperiencedEvent) -> (r: Result<Self, Error>) {
        Ok(())
    }

    fn result(self) -> (r: Result<(), Error>) {
        Ok(())
    }
}

/// A ConstraintChain is a succession of constraints that must be satisfied as a whole.
pub trait ConstraintChain: Constraint {
    /// Chains the given constraint with self, as its newest member.
    fn chain<C: Constraint>(self, constraint: C) -> (r: LiFoConstraintChain<Self, C>)
        ensures
            r.head == Some(self),
            r.constraint == constraint,
    ;
}

/// A last-in first-out chain of constraints: `constraint`, the newest member, is
/// evaluated first, then the older members in `head`.
pub struct LiFoConstraintChain<Head, Cnst> {
    pub head: Option<Head>,
    pub constraint: Cnst,
}

impl<Cnst> LiFoConstraintChain<(), Cnst> {
    pub fn new(constraint: Cnst) -> (r: Self)
        ensures
            r.head == None::<()>,
            r.constraint == constraint,
    {
        LiFoConstraintChain { head: None, constraint }
    }
}

impl<Head: Constraint, Cnst: Constraint> Constraint for LiFoConstraintChain<Head, Cnst> {
    open spec fn fed(self, unit: ExperiencedEvent) -> Result<Self, Error> {
        match self.constraint.fed(unit) {
            Err(e) => Err(e),
            Ok(c) => match self.head {
                None => Ok(LiFoConstraintChain { head: None, constraint: c }),
                Some(h) => match h.fed(unit) {
                    Err(e) => Err(e),
                    Ok(h2) => Ok(LiFoConstraintChain { head: Some(h2), constraint: c }),
                },
            },
        }
    }

    open spec fn verdict(self) -> Result<(), Error> {
        match self.constraint.verdict() {
            Err(e) => Err(e),
            Ok(()) => match self.head {
                None => Ok(()),
                Some(h) => h.verdict(),
            },
        }
    }

    fn with(self, unit: &ExperiencedEvent) -> (r: Result<Self, Error>) {
        let constraint = match self.constraint.with(unit) {
            Ok(c) => c,
            Err(e) => {
                return Err(e);
            },
        };
        match self.head {
            None => Ok(LiFoConstraintChain { head: None, constraint }),
            Some(h) => match h.with(unit) {
                Ok(h2) => Ok(LiFoConstraintChain { head: Some(h2), constraint }),
                Err(e) => Err(e),
            },
        }
    }

    fn result(self) -> (r: Result<(), Error>) {
        match self.constraint.result() {
            Err(e) => Err(e),
            Ok(()) => match self.head {
                None => Ok(()),
                Some(h) => h.result(),
            },
        }
    }
}

impl<Head: Constraint, Cnst: Constraint> ConstraintChain for LiFoConstraintChain<Head, Cnst> {
    fn chain<C: Constraint>(self, constraint: C) -> (r: LiFoConstraintChain<Self, C>) {
        LiFoConstraintChain { head: Some(self), constraint }
    }
}

/// A chain evaluates its newest member first: a violation of the newest member is
/// the chain's; the older members are asked only once the newest has accepted the
/// unit. Its verdict is likewise the newest member's first failure, then the older
/// members' verdict.
pub proof fn lemma_chain_newest_first<Head: Constraint, Cnst: Constraint>(
    chain: LiFoConstraintChain<Head, Cnst>,
    unit: ExperiencedEvent,
)
    ensures
        chain.constraint.fed(unit) is Err ==> chain.fed(unit) == Err::<
            LiFoConstraintChain<Head, Cnst>,
            Error,
        >(chain.constraint.fed(unit)->Err_0),
        chain.constraint.fed(unit) is Ok && chain.head is Some && chain.head->Some_0.fed(unit) is Err
            ==> chain.fed(unit) == Err::<LiFoConstraintChain<Head, Cnst>, Error>(
            chain.head->Some_0.fed(unit)->Err_0,
        ),
        chain.fed(unit) is Ok <==> (chain.constraint.fed(unit) is Ok && (chain.head is None
            || chain.head->Some_0.fed(unit) is Ok)),
        chain.constraint.verdict() is Err ==> chain.verdict() == chain.constraint.verdict(),
        chain.constraint.verdict() is Ok && chain.head is Some ==> chain.verdict()
            == chain.head->Some_0.verdict(),
        chain.verdict() is Ok <==> (chain.constraint.verdict() is Ok && (chain.head is None
            || chain.head->Some_0.verdict() is Ok)),
{
}

/// Where the timeline has been fed in full: the verdict of `c` after taking every
/// unit of `units` in order, stopping at the first violation.
pub open spec fn verdict_over<C: Constraint>(c: C, units: Seq<ExperiencedEvent>) -> Result<
    (),
    Error,
>
    decreases units.len(),
{
    if units.len() == 0 {
        c.verdict()
    } else {
        match c.fed(units[0]) {
            Err(e) => Err(e),
            Ok(c2) => verdict_over(c2, units.drop_first()),
        }
    }
}

/// Feeds every unit of `units` to `c`, in order, and returns its verdict; the first
/// violation ends the evaluation.
pub fn evaluate<C: Constraint>(constraint: C, units: &Vec<ExperiencedEvent>) -> (r: Result<(), Error>)
    ensures
        r == verdict_over(constraint, units@),
{
    let mut c = constraint;
    let mut i: usize = 0;
    assert(units@.subrange(0, units@.len() as int) =~= units@);
    while i < units.len()
        invariant
            i <= units@.len(),
            verdict_over(c, units@.subrange(i as int, units@.len() as int)) == verdict_over(
                constraint,
                units@,
            ),
        decreases units@.len() - i,
    {
        proof {
            let rest = units@.subrange(i as int, units@.len() as int);
            assert(rest[0] == units@[i as int]);
            assert(rest.drop_first() =~= units@.subrange(i + 1, units@.len() as int));
        }
        let ghost before = c;
        match c.with(&units[i]) {
            Ok(c2) => {
                c = c2;
            },
            Err(e) => {
                assert(verdict_over(before, units@.subrange(i as int, units@.len() as int)) == Err::<(), Error>(e));
                return Err(e);
            },
        }
        i = i + 1;
    }
    proof {
        assert(units@.subrange(i as int, units@.len() as int) =~= Seq::<ExperiencedEvent>::empty());
    }
    c.result()
}

} // verus!
