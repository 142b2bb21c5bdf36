use plotline::constraint::{
    evaluate, Constraint, ConstraintChain, ExperiencedEvent, Interval, LiFoConstraintChain,
};
use plotline::error::{Error, Rule};
use plotline::rules::{
    ExperienceBelongsToOneOfPrevious, ExperienceIsNotSimultaneous, ExperienceKindFollowsPrevious,
    ExperienceKindPrecedesNext,
};

fn unit(event: u64, lo: u64, hi: u64, entity: u64, profiles: Vec<u64>, terminal: bool) -> ExperiencedEvent {
    ExperiencedEvent { event, interval: Interval { lo, hi }, entity, profiles, terminal }
}

fn violation(rule: Rule, event: u64) -> Error {
    Error::ConstraintViolation { rule, event }
}

#[test]
fn defaults_accept_consistent_timeline() {
    let subject = unit(10, 10, 11, 1, vec![], false);
    let timeline = vec![unit(1, 0, 1, 1, vec![], false), unit(20, 20, 21, 1, vec![], false)];
    assert_eq!(evaluate(LiFoConstraintChain::with_defaults(&subject), &timeline), Ok(()));
}

#[test]
fn defaults_accept_empty_timeline() {
    let subject = unit(10, 10, 11, 1, vec![], true);
    assert_eq!(evaluate(LiFoConstraintChain::with_defaults(&subject), &vec![]), Ok(()));
}

#[test]
fn simultaneous_event_is_rejected_at_once() {
    let subject = unit(10, 10, 12, 1, vec![], false);
    let chain = LiFoConstraintChain::with_defaults(&subject);
    assert!(matches!(chain.with(&unit(2, 12, 13, 1, vec![], false)), Err(e) if e == violation(Rule::NotSimultaneous, 2)));
}

#[test]
fn same_event_is_not_simultaneous() {
    let subject = unit(10, 10, 12, 1, vec![], false);
    let c = ExperienceIsNotSimultaneous::new(&subject);
    assert!(c.with(&unit(10, 10, 12, 1, vec![], false)).is_ok());
}

#[test]
fn previous_terminal_is_rejected() {
    let subject = unit(10, 10, 11, 1, vec![], false);
    let timeline = vec![unit(1, 0, 1, 1, vec![], false), unit(2, 3, 4, 1, vec![], true)];
    assert_eq!(
        evaluate(LiFoConstraintChain::with_defaults(&subject), &timeline),
        Err(violation(Rule::KindFollowsPrevious, 2))
    );
}

#[test]
fn only_closest_previous_counts() {
    let subject = unit(10, 10, 11, 1, vec![], false);
    let timeline = vec![unit(2, 3, 4, 1, vec![], true), unit(3, 5, 6, 1, vec![], false)];
    assert_eq!(evaluate(LiFoConstraintChain::with_defaults(&subject), &timeline), Ok(()));
}

#[test]
fn terminal_followed_by_next_is_rejected() {
    let subject = unit(10, 10, 11, 1, vec![], true);
    let timeline = vec![unit(30, 30, 31, 1, vec![], false), unit(20, 20, 21, 1, vec![], false)];
    assert_eq!(
        evaluate(LiFoConstraintChain::with_defaults(&subject), &timeline),
        Err(violation(Rule::KindPrecedesNext, 20))
    );
}

#[test]
fn previous_not_referencing_entity_is_rejected() {
    let subject = unit(10, 10, 11, 1, vec![], false);
    let timeline = vec![unit(2, 3, 4, 5, vec![6], false)];
    assert_eq!(
        evaluate(LiFoConstraintChain::with_defaults(&subject), &timeline),
        Err(violation(Rule::BelongsToOneOfPrevious, 2))
    );
}

#[test]
fn previous_referencing_entity_by_profile_is_accepted() {
    let subject = unit(10, 10, 11, 1, vec![], false);
    let timeline = vec![unit(2, 3, 4, 5, vec![6, 1], false)];
    assert_eq!(evaluate(LiFoConstraintChain::with_defaults(&subject), &timeline), Ok(()));
}

#[test]
fn chain_reports_newest_violation_first() {
    // The previous event is terminal and does not reference the subject's entity, and
    // the subject is terminal with a next event: three members fail at the end.
    let subject = unit(10, 10, 11, 1, vec![], true);
    let timeline = vec![unit(2, 3, 4, 5, vec![], true), unit(20, 20, 21, 1, vec![], false)];
    assert_eq!(
        evaluate(LiFoConstraintChain::with_defaults(&subject), &timeline),
        Err(violation(Rule::KindPrecedesNext, 20))
    );
    // Without the newest failing member, the next one in age reports.
    let chain = LiFoConstraintChain::new(ExperienceBelongsToOneOfPrevious::new(&subject))
        .chain(ExperienceKindFollowsPrevious::new(&subject));
    assert_eq!(evaluate(chain, &timeline), Err(violation(Rule::KindFollowsPrevious, 2)));
    let chain = LiFoConstraintChain::new(ExperienceBelongsToOneOfPrevious::new(&subject));
    assert_eq!(evaluate(chain, &timeline), Err(violation(Rule::BelongsToOneOfPrevious, 2)));
}

#[test]
fn chain_with_stops_at_newest_failure() {
    let subject = unit(10, 10, 11, 1, vec![], true);
    let chain = LiFoConstraintChain::new(ExperienceKindPrecedesNext::new(&subject))
        .chain(ExperienceIsNotSimultaneous::new(&subject));
    let r = chain.with(&unit(3, 11, 30, 1, vec![], false));
    assert!(matches!(r, Err(e) if e == violation(Rule::NotSimultaneous, 3)));
}

#[test]
fn violation_at_with_ends_evaluation() {
    let subject = unit(10, 10, 11, 1, vec![], true);
    // the first unit overlaps; the second would break another rule but is never fed
    let timeline = vec![unit(2, 9, 10, 1, vec![], false), unit(20, 20, 21, 1, vec![], false)];
    assert_eq!(
        evaluate(LiFoConstraintChain::with_defaults(&subject), &timeline),
        Err(violation(Rule::NotSimultaneous, 2))
    );
}

#[test]
fn unit_constraint_always_holds() {
    let c = ().with(&unit(1, 0, 1, 1, vec![], false));
    assert!(c.is_ok());
    assert_eq!(().result(), Ok(()));
}

#[test]
fn interval_overlap() {
    let a = Interval { lo: 0, hi: 5 };
    assert!(a.overlaps(&Interval { lo: 5, hi: 9 }));
    assert!(!a.overlaps(&Interval { lo: 6, hi: 9 }));
    assert!(a.overlaps(&Interval { lo: 1, hi: 2 }));
}

#[test]
fn experienced_event_references() {
    let u = unit(1, 0, 1, 4, vec![7, 8], false);
    assert!(u.references(4));
    assert!(u.references(8));
    assert!(!u.references(9));
}
