//! The default constraints on an experience within its subject's timeline.
use vstd::prelude::*;
use crate::command::Command;
use crate::constraint::{
    Constraint, ConstraintChain, ExperiencedEvent, Interval, LiFoConstraintChain, evaluate, overlap,
    references, verdict_over,
};
use crate::schema::NodeToInsert;
use crate::error::{Error, Rule};

verus! {

/// The unit of the timeline closest to the subject on one side, as far as seen so far.
#[derive(Clone, Copy, Debug, PartialEq, Eq, Structural)]
pub struct Mark {
    /// The event of the unit.
    pub event: u64,
    /// Where the unit stands in time: its end for a previous unit, its start for a next one.
    pub at: u64,
    /// What the constraint needs to know of the unit.
    pub flag: bool,
}

/// Whether `u` ends before `subject` starts and later than the previous unit `prev` ends.
pub open spec fn closer_previous(subject: Interval, prev: Option<Mark>, u: ExperiencedEvent) -> bool {
    u.interval.hi < subject.lo && match prev {
        None => true,
        Some(p) => p.at < u.interval.hi,
    }
}

fn is_closer_previous(subject: &Interval, prev: &Option<Mark>, u: &ExperiencedEvent) -> (r: bool)
    ensures
        r == closer_previous(*subject, *prev, *u),
{
    u.interval.hi < subject.lo && match prev {
        None => true,
        Some(p) => p.at < u.interval.hi,
    }
}

/// The experience's entity must be referenced by the experienced event right before it.
pub struct ExperienceBelongsToOneOfPrevious {
    pub entity: u64,
    pub interval: Interval,
    pub previous: Option<Mark>,
}

impl ExperienceBelongsToOneOfPrevious {
    pub fn new(subject: &ExperiencedEvent) -> (r: Self)
        ensures
            r.entity == subject.entity,
            r.interval == subject.interval,
            r.previous == None::<Mark>,
    {
        ExperienceBelongsToOneOfPrevious {
            entity: subject.entity,
            interval: subject.interval,
            previous: None,
        }
    }
}

impl Constraint for ExperienceBelongsToOneOfPrevious {
    open spec fn fed(self, unit: ExperiencedEvent) -> Result<Self, Error> {
        if closer_previous(self.interval, self.previous, unit) {
            Ok(
                ExperienceBelongsToOneOfPrevious {
                    previous: Some(
                        Mark {
                            event: unit.event,
                            at: unit.interval.hi,
                            flag: references(unit, self.entity),
                        },
                    ),
                    ..self
                },
            )
        } else {
            Ok(self)
        }
    }

    open spec fn verdict(self) -> Result<(), Error> {
        match self.previous {
            Some(p) if !p.flag => Err(
                Error::ConstraintViolation { rule: Rule::BelongsToOneOfPrevious, event: p.event },
            ),
            _ => Ok(()),
        }
    }

    fn with(self, unit: &ExperiencedEvent) -> (r: Result<Self, Error>) {
        if is_closer_previous(&self.interval, &self.previous, unit) {
            let flag = unit.references(self.entity);
            Ok(
                ExperienceBelongsToOneOfPrevious {
                    entity: self.entity,
                    interval: self.interval,
                    previous: Some(Mark { event: unit.event, at: unit.interval.hi, flag }),
                },
            )
        } else {
            Ok(self)
        }
    }

    fn result(self) -> (r: Result<(), Error>) {
        match self.previous {
            Some(p) if !p.flag => Err(
                Error::ConstraintViolation { rule: Rule::BelongsToOneOfPrevious, event: p.event },
            ),
            _ => Ok(()),
        }
    }
}

/// The experienced event right before the experience must not be terminal.
pub struct ExperienceKindFollowsPrevious {
    pub interval: Interval,
    pub previous: Option<Mark>,
}

impl ExperienceKindFollowsPrevious {
    pub fn new(subject: &ExperiencedEvent) -> (r: Self)
        ensures
            r.interval == subject.interval,
            r.previous == None::<Mark>,
    {
        ExperienceKindFollowsPrevious { interval: subject.interval, previous: None }
    }
}

impl Constraint for ExperienceKindFollowsPrevious {
    open spec fn fed(self, unit: ExperiencedEvent) -> Result<Self, Error> {
        if closer_previous(self.interval, self.previous, unit) {
            Ok(
                ExperienceKindFollowsPrevious {
                    previous: Some(
                        Mark { event: unit.event, at: unit.interval.hi, flag: unit.terminal },
                    ),
                    ..self
                },
            )
        } else {
            Ok(self)
        }
    }

    open spec fn verdict(self) -> Result<(), Error> {
        match self.previous {
            Some(p) if p.flag => Err(
                Error::ConstraintViolation { rule: Rule::KindFollowsPrevious, event: p.event },
            ),
            _ => Ok(()),
        }
    }

    fn with(self, unit: &ExperiencedEvent) -> (r: Result<Self, Error>) {
        if is_closer_previous(&self.interval, &self.previous, unit) {
            Ok(
                ExperienceKindFollowsPrevious {
                    interval: self.interval,
                    previous: Some(
                        Mark { event: unit.event, at: unit.interval.hi, flag: unit.terminal },
                    ),
                },
            )
        } else {
            Ok(self)
        }
    }

    fn result(self) -> (r: Result<(), Error>) {
        match self.previous {
            Some(p) if p.flag => Err(
                Error::ConstraintViolation { rule: Rule::KindFollowsPrevious, event: p.event },
            ),
            _ => Ok(()),
        }
    }
}

/// A terminal experience must not be followed by another experienced event.
pub struct ExperienceKindPrecedesNext {
    pub interval: Interval,
    pub terminal: bool,
    pub next: Option<Mark>,
}

/// Whether `u` starts after `subject` ends and earlier than the next unit `next` starts.
pub open spec fn closer_next(subject: Interval, next: Option<Mark>, u: ExperiencedEvent) -> bool {
    subject.hi < u.interval.lo && match next {
        None => true,
        Some(n) => u.interval.lo < n.at,
    }
}

impl ExperienceKindPrecedesNext {
    pub fn new(subject: &ExperiencedEvent) -> (r: Self)
        ensures
            r.interval == subject.interval,
            r.terminal == subject.terminal,
            r.next == None::<Mark>,
    {
        ExperienceKindPrecedesNext { interval: subject.interval, terminal: subject.terminal, next: None }
    }
}

impl Constraint for ExperienceKindPrecedesNext {
    open spec fn fed(self, unit: ExperiencedEvent) -> Result<Self, Error> {
        if closer_next(self.interval, self.next, unit) {
            Ok(
                ExperienceKindPrecedesNext {
                    next: Some(Mark { event: unit.event, at: unit.interval.lo, flag: unit.terminal }),
                    ..self
                },
            )
        } else {
            Ok(self)
        }
    }

    open spec fn verdict(self) -> Result<(), Error> {
        match self.next {
            Some(n) if self.terminal => Err(
                Error::ConstraintViolation { rule: Rule::KindPrecedesNext, event: n.event },
            ),
            _ => Ok(()),
        }
    }

    fn with(self, unit: &ExperiencedEvent) -> (r: Result<Self, Error>) {
        let closer = self.interval.hi < unit.interval.lo && match self.next {
            None => true,
            Some(n) => unit.interval.lo < n.at,
        };
        if closer {
            Ok(
                ExperienceKindPrecedesNext {
                    interval: self.interval,
                    terminal: self.terminal,
                    next: Some(Mark { event: unit.event, at: unit.interval.lo, flag: unit.terminal }),
                },
            )
        } else {
            Ok(self)
        }
    }

    fn result(self) -> (r: Result<(), Error>) {
        match self.next {
            Some(n) if self.terminal => Err(
                Error::ConstraintViolation { rule: Rule::KindPrecedesNext, event: n.event },
            ),
            _ => Ok(()),
        }
    }
}

/// No other event of the timeline may overlap the experienced one; a unit that does
/// is rejected at once.
pub struct ExperienceIsNotSimultaneous {
    pub event: u64,
    pub interval: Interval,
}

impl ExperienceIsNotSimultaneous {
    pub fn new(subject: &ExperiencedEvent) -> (r: Self)
        ensures
            r.event == subject.event,
            r.interval == subject.interval,
    {
        ExperienceIsNotSimultaneous { event: subject.event, interval: subject.interval }
    }
}

impl Constraint for ExperienceIsNotSimultaneous {
    open spec fn fed(self, unit: ExperiencedEvent) -> Result<Self, Error> {
        if unit.event != self.event && overlap(unit.interval, self.interval) {
            Err(Error::ConstraintViolation { rule: Rule::NotSimultaneous, event: unit.event })
        } else {
            Ok(self)
        }
    }

    open spec fn verdict(self) -> Result<(), Error> {
        Ok(())
    }

    fn with(self, unit: &ExperiencedEvent) -> (r: Result<Self, Error>) {
        if unit.event != self.event && unit.interval.overlaps(&self.interval) {
            Err(Error::ConstraintViolation { rule: Rule::NotSimultaneous, event: unit.event })
        } else {
            Ok(self)
        }
    }

    fn result(self) -> (r: Result<(), Error>) {
        Ok(())
    }
}

/// The chain of the default constraints, the newest member outermost.
pub type DefaultConstraints = LiFoConstraintChain<
    LiFoConstraintChain<
        LiFoConstraintChain<LiFoConstraintChain<(), ExperienceBelongsToOneOfPrevious>, ExperienceKindFollowsPrevious>,
        ExperienceKindPrecedesNext,
    >,
    ExperienceIsNotSimultaneous,
>;

/// The default constraints for the experienced event `subject`, nothing fed yet.
pub open spec fn default_constraints(subject: ExperiencedEvent) -> DefaultConstraints {
    LiFoConstraintChain {
        head: Some(
            LiFoConstraintChain {
                head: Some(
                    LiFoConstraintChain {
                        head: Some(
                            LiFoConstraintChain {
                                head: None::<()>,
                                constraint: ExperienceBelongsToOneOfPrevious {
                                    entity: subject.entity,
                                    interval: subject.interval,
                                    previous: None,
                                },
                            },
                        ),
                        constraint: ExperienceKindFollowsPrevious {
                            interval: subject.interval,
                            previous: None,
                        },
                    },
                ),
                constraint: ExperienceKindPrecedesNext {
                    interval: subject.interval,
                    terminal: subject.terminal,
                    next: None,
                },
            },
        ),
        constraint: ExperienceIsNotSimultaneous { event: subject.event, interval: subject.interval },
    }
}

impl LiFoConstraintChain<(), ()> {
    /// Creates a chain with the default constraints for the experienced event `subject`:
    /// the simultaneity check is the newest member, the check on the previous event's
    /// references the oldest.
    pub fn with_defaults(subject: &ExperiencedEvent) -> (r: DefaultConstraints)
        ensures
            r == default_constraints(*subject),
    {
        LiFoConstraintChain::new(ExperienceBelongsToOneOfPrevious::new(subject)).chain(
            ExperienceKindFollowsPrevious::new(subject),
        ).chain(ExperienceKindPrecedesNext::new(subject)).chain(
            ExperienceIsNotSimultaneous::new(subject),
        )
    }
}

/// A before-insertion trigger that validates the experienced event being inserted
/// against the timeline already in the graph, with the default constraints.
pub struct TimelineConstraints;

impl<'b> Command<NodeToInsert<'b, ExperiencedEvent>, Error> for TimelineConstraints {
    open spec fn effect(&self, ctx: NodeToInsert<'b, ExperiencedEvent>) -> (
        NodeToInsert<'b, ExperiencedEvent>,
        Result<(), Error>,
    ) {
        (ctx, verdict_over(default_constraints(ctx.node), ctx.graph@))
    }

    fn execute(&self, ctx: &mut NodeToInsert<'b, ExperiencedEvent>) -> (r: Result<(), Error>) {
        let chain = LiFoConstraintChain::with_defaults(&ctx.node);
        evaluate(chain, ctx.graph.values())
    }
}

} // verus!
