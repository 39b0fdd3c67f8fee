//! The filter pipeline: an ordered list of steps that inspect and change a
//! mail, each of which may let the pipeline go on, accept the mail as it is,
//! or reject it.
//!
//! The steps of a filter are part of its type: a filter of three steps is
//! `Then<Then<Then<Start<M>, A>, B>, C>`. What a filter does is thus known from
//! what its steps do, also where the steps are functions.

use std::marker::PhantomData;
use vstd::prelude::*;

use crate::action::Action;
use crate::address::MailAddrList;
use crate::mail::BasicMail;
use crate::reply::{rendered, Error};

verus! {

/// What a step may return: a value that says how the pipeline goes on.
///
/// An `Action` says so itself. `true` and `Some(())` continue, `false` and
/// `None` ignore. `Ok(())` continues and `Err(e)` rejects with `e`. A step
/// that returns nothing continues.
pub trait Verdict: Sized {
    /// The action that the verdict asks for.
    open spec fn action(self) -> Action {
        arbitrary()
    }

    /// The action that the verdict asks for.
    fn into_action(self) -> (action: Action)
        ensures
            action == self.action(),
    ;
}

impl Verdict for Action {
    open spec fn action(self) -> Action {
        self
    }

    fn into_action(self) -> (action: Action) {
        self
    }
}

impl Verdict for bool {
    open spec fn action(self) -> Action {
        if self {
            Action::Continue
        } else {
            Action::Ignore
        }
    }

    fn into_action(self) -> (action: Action) {
        if self {
            Action::Continue
        } else {
            Action::Ignore
        }
    }
}

impl Verdict for Option<()> {
    open spec fn action(self) -> Action {
        if self is Some {
            Action::Continue
        } else {
            Action::Ignore
        }
    }

    fn into_action(self) -> (action: Action) {
        if self.is_some() {
            Action::Continue
        } else {
            Action::Ignore
        }
    }
}

impl Verdict for Result<(), Error> {
    open spec fn action(self) -> Action {
        match self {
            Ok(_) => Action::Continue,
            Err(e) => Action::Reject(e),
        }
    }

    fn into_action(self) -> (action: Action) {
        match self {
            Ok(()) => Action::Continue,
            Err(e) => Action::Reject(e),
        }
    }
}

impl Verdict for () {
    open spec fn action(self) -> Action {
        Action::Continue
    }

    fn into_action(self) -> (action: Action) {
        Action::Continue
    }
}

/// Runs `f` on `mail` and hands the mail back as `f` left it, with what `f`
/// returned. `f` must accept every mail.
pub fn run_on<M, V, F: Fn(&mut M) -> V>(f: &F, mail: M) -> (done: (M, V))
    requires
        forall|given: &mut M| call_requires(*f, (given,)),
    ensures
        exists|given: &mut M|
            *given == mail && *final(given) == done.0 && call_ensures(*f, (given,), done.1),
{
    let mut mail = mail;
    let returned = f(&mut mail);
    (mail, returned)
}

/// `f`, run on the mail `before`, may leave the mail `after` and return
/// `returned`: that is a possible outcome of `run_on`.
pub open spec fn runs_to<M, V, F: Fn(&mut M) -> V>(f: F, before: M, after: M, returned: V) -> bool {
    call_ensures(run_on::<M, V, F>, (&f, before), (after, returned))
}

/// What `runs_to` says of a function, in the function's own terms: the
/// function was called on a mail that was `before`, left it as `after`, and
/// returned `returned`.
pub proof fn lemma_runs_to<M, V, F: Fn(&mut M) -> V>(f: F, before: M, after: M, returned: V)
    requires
        runs_to(f, before, after, returned),
    ensures
        exists|given: &mut M|
            *given == before && *final(given) == after && call_ensures(f, (given,), returned),
{
}

/// One step of a pipeline: given the mail, it may change it, and returns a
/// verdict with the mail.
pub trait FilterStep<M: BasicMail, V> {
    /// What the step may do: turn the mail `before` into `after` and return
    /// `verdict`. A step that does not say admits everything.
    open spec fn admits(&self, before: M, after: M, verdict: V) -> bool {
        true
    }

    /// Runs the step on `mail`.
    fn apply(&self, mail: M) -> (done: (M, V))
        ensures
            self.admits(mail, done.0, done.1),
    ;
}

/// A step made of a function: it does to the mail what the function does,
/// and its verdict is what the function returns.
#[verifier::reject_recursive_types(M)]
#[verifier::reject_recursive_types(V)]
pub struct Plain<M: BasicMail, V, F: Fn(&mut M) -> V> {
    f: F,
    of: PhantomData<(M, V)>,
}

impl<M: BasicMail, V, F: Fn(&mut M) -> V> Plain<M, V, F> {
    #[verifier::type_invariant]
    spec fn callable(self) -> bool {
        forall|mail: &mut M| call_requires(self.f, (mail,))
    }

    /// The function that the step runs.
    pub closed spec fn function(&self) -> F {
        self.f
    }

    /// The step that runs `f`, which must accept every mail.
    pub fn new(f: F) -> (step: Self)
        requires
            forall|mail: &mut M| call_requires(f, (mail,)),
        ensures
            step.function() == f,
    {
        Plain { f, of: PhantomData }
    }
}

impl<M: BasicMail, V, F: Fn(&mut M) -> V> FilterStep<M, V> for Plain<M, V, F> {
    open spec fn admits(&self, before: M, after: M, verdict: V) -> bool {
        runs_to(self.function(), before, after, verdict)
    }

    fn apply(&self, mail: M) -> (done: (M, V)) {
        proof {
            use_type_invariant(self);
        }
        let run = run_on::<M, V, F>;
        run(&self.f, mail)
    }
}

/// A step whose verdict is turned into the action it asks for.
#[verifier::reject_recursive_types(M)]
#[verifier::reject_recursive_types(V)]
pub struct Judge<M: BasicMail, V: Verdict, T: FilterStep<M, V>> {
    pub step: T,
    pub of: PhantomData<(M, V)>,
}

impl<M: BasicMail, V: Verdict, T: FilterStep<M, V>> Judge<M, V, T> {
    /// The step that runs `step` and turns its verdict into an action.
    pub fn new(step: T) -> (judge: Self)
        ensures
            judge.step == step,
    {
        Judge { step, of: PhantomData }
    }
}

impl<M: BasicMail, V: Verdict, T: FilterStep<M, V>> FilterStep<M, Action> for Judge<M, V, T> {
    open spec fn admits(&self, before: M, after: M, verdict: Action) -> bool {
        exists|given: V| #[trigger]
            self.step.admits(before, after, given) && verdict == given.action()
    }

    fn apply(&self, mail: M) -> (done: (M, Action)) {
        let (mail, verdict) = self.step.apply(mail);
        (mail, verdict.into_action())
    }
}

/// A step made of the function `F`, as `Filter::filter`, `Filter::and_then`
/// and `Filter::map` add it.
pub type Run<M, V, F> = Judge<M, V, Plain<M, V, F>>;

/// What a step made of a function does, in the function's own terms: the
/// function was called on the mail, the mail is as the function left it,
/// and the action is the one that the function's result asks for.
pub proof fn lemma_run_admits<M: BasicMail, V: Verdict, F: Fn(&mut M) -> V>(
    step: Judge<M, V, Plain<M, V, F>>,
    before: M,
    after: M,
    action: Action,
)
    requires
        step.admits(before, after, action),
    ensures
        exists|given: &mut M, returned: V|
            *given == before && *final(given) == after && call_ensures(
                step.step.function(),
                (given,),
                returned,
            ) && action == returned.action(),
{
    let returned = choose|returned: V| #[trigger]
        step.step.admits(before, after, returned) && action == returned.action();
    lemma_runs_to(step.step.function(), before, after, returned);
}

/// A check never accepts a mail half-way: a step whose verdict is a
/// `Result` continues or rejects, and rejects with the error it was given.
pub proof fn lemma_check_never_ignores<M: BasicMail, T: FilterStep<M, Result<(), Error>>>(
    step: Judge<M, Result<(), Error>, T>,
    before: M,
    after: M,
    action: Action,
)
    requires
        step.admits(before, after, action),
    ensures
        !(action is Ignore),
        action matches Action::Reject(e) ==> step.step.admits(before, after, Err(e)),
        action is Continue ==> step.step.admits(before, after, Ok(())),
{
    let verdict = choose|verdict: Result<(), Error>| #[trigger]
        step.step.admits(before, after, verdict) && action == verdict.action();
    if let Ok(unit) = verdict {
        assert(unit == ());
    }
}

/// A step without a verdict always continues.
pub proof fn lemma_change_continues<M: BasicMail, T: FilterStep<M, ()>>(
    step: Judge<M, (), T>,
    before: M,
    after: M,
    action: Action,
)
    requires
        step.admits(before, after, action),
    ensures
        action is Continue,
        step.step.admits(before, after, ()),
{
    let verdict = choose|verdict: ()| #[trigger]
        step.step.admits(before, after, verdict) && action == verdict.action();
    assert(verdict == ());
}

/// The mail on which step `i` of a run is run: the mail handed in, or what
/// the step before left of it.
pub open spec fn mail_before<M>(start: M, trace: Seq<(Action, M)>, i: int) -> M {
    if i == 0 {
        start
    } else {
        trace[i - 1].1
    }
}

/// How a run ended: with the action of the step that did not continue, or
/// with nothing where every step continued.
pub open spec fn stopped<M>(trace: Seq<(Action, M)>) -> Option<Action> {
    if trace.len() > 0 && !(trace.last().0 is Continue) {
        Some(trace.last().0)
    } else {
        None
    }
}

/// An ordered list of steps.
pub trait StepList<M: BasicMail>: Sized {
    /// The number of steps.
    spec fn len(&self) -> nat;

    /// What step `i` may do: turn the mail `before` into `after` and return
    /// `action`.
    spec fn admits(&self, i: int, before: M, after: M, action: Action) -> bool;

    /// Runs the steps on `mail`, in order, up to the first that does not
    /// continue. Returns the mail as the last step that was run left it, and
    /// the action of the step that did not continue, if there was one.
    fn run(&self, mail: M) -> (done: (M, Option<Action>))
        ensures
            exists|trace: Seq<(Action, M)>|
                #![trigger stopped(trace)]
                {
                    &&& trace.len() <= self.len()
                    &&& forall|i: int|
                        0 <= i < trace.len() ==> self.admits(
                            i,
                            mail_before(mail, trace, i),
                            (#[trigger] trace[i]).1,
                            trace[i].0,
                        )
                    &&& forall|i: int|
                        0 <= i < trace.len() - 1 ==> (#[trigger] trace[i]).0 is Continue
                    &&& trace.len() < self.len() ==> trace.len() > 0 && !(trace.last().0
                        is Continue)
                    &&& done.0 == mail_before(mail, trace, trace.len() as int)
                    &&& done.1 == stopped(trace)
                },
    ;
}

/// `trace` is a run of `steps` on the mail `start`. It holds, for each step
/// that was run, the action it returned and the mail it left: the steps
/// were run in order, each on what the one before left; every step but the
/// last continued; and the run stopped before the last step of the list
/// only where a step did not continue.
pub open spec fn runs<M: BasicMail, S: StepList<M>>(
    steps: S,
    start: M,
    trace: Seq<(Action, M)>,
) -> bool {
    &&& trace.len() <= steps.len()
    &&& forall|i: int|
        0 <= i < trace.len() ==> steps.admits(
            i,
            mail_before(start, trace, i),
            (#[trigger] trace[i]).1,
            trace[i].0,
        )
    &&& forall|i: int| 0 <= i < trace.len() - 1 ==> (#[trigger] trace[i]).0 is Continue
    &&& trace.len() < steps.len() ==> trace.len() > 0 && !(trace.last().0 is Continue)
}

/// The list without steps.
#[verifier::reject_recursive_types(M)]
pub struct Start<M> {
    pub of: PhantomData<M>,
}

impl<M: BasicMail> StepList<M> for Start<M> {
    open spec fn len(&self) -> nat {
        0
    }

    open spec fn admits(&self, i: int, before: M, after: M, action: Action) -> bool {
        false
    }

    fn run(&self, mail: M) -> (done: (M, Option<Action>)) {
        assert(stopped(Seq::<(Action, M)>::empty()) == None::<Action>);
        (mail, None)
    }
}

/// The steps of `first`, and then the step `next`.
pub struct Then<S, T> {
    pub first: S,
    pub next: T,
}

impl<M: BasicMail, S: StepList<M>, T: FilterStep<M, Action>> StepList<M> for Then<S, T> {
    open spec fn len(&self) -> nat {
        self.first.len() + 1
    }

    open spec fn admits(&self, i: int, before: M, after: M, action: Action) -> bool {
        if i < self.first.len() {
            self.first.admits(i, before, after, action)
        } else {
            i == self.first.len() && self.next.admits(before, after, action)
        }
    }

    fn run(&self, mail: M) -> (done: (M, Option<Action>)) {
        let (mail_then, early) = self.first.run(mail);
        let ghost before = choose|trace: Seq<(Action, M)>|
            #![trigger stopped(trace)]
            runs(self.first, mail, trace) && mail_then == mail_before(
                mail,
                trace,
                trace.len() as int,
            ) && early == stopped(trace);
        match early {
            Some(action) => {
                assert(stopped(before) == Some(action));
                (mail_then, Some(action))
            },
            None => {
                let (last, action) = self.next.apply(mail_then);
                let ghost trace = before.push((action, last));
                assert forall|i: int| 0 <= i < trace.len() implies self.admits(
                    i,
                    mail_before(mail, trace, i),
                    (#[trigger] trace[i]).1,
                    trace[i].0,
                ) by {
                    if i < before.len() {
                        assert(trace[i] == before[i]);
                        assert(mail_before(mail, trace, i) == mail_before(mail, before, i));
                    }
                }
                let stop = match action {
                    Action::Continue => None,
                    _ => Some(action),
                };
                assert(stop == stopped(trace));
                (last, stop)
            },
        }
    }
}

/// What a run returns.
///
/// A run that ended on a rejection fails with the reply as it is sent. Any
/// other run succeeds with the parts of the mail as the last step left it.
pub open spec fn outcome<M: BasicMail>(
    start: M,
    trace: Seq<(Action, M)>,
    result: Result<(Vec<u8>, MailAddrList, MailAddrList), String>,
) -> bool {
    if trace.len() > 0 && trace.last().0 is Reject {
        result matches Err(text) && text@ == rendered(
            trace.last().0->Reject_0.status,
            trace.last().0->Reject_0.message@,
        )
    } else {
        let parts = mail_before(start, trace, trace.len() as int).parts();
        result matches Ok(given) && given.0@ == parts.contents && given.1@ == parts.sender
            && given.2@ == parts.recipients
    }
}

/// A mail filter: steps that are run on a mail in the order in which they
/// were added.
#[verifier::reject_recursive_types(M)]
pub struct Filter<M: BasicMail, S: StepList<M>> {
    steps: S,
    of: PhantomData<M>,
}

impl<M: BasicMail> Filter<M, Start<M>> {
    /// A filter without steps.
    pub fn new() -> (filter: Self)
        ensures
            filter.steps().len() == 0,
    {
        Filter { steps: Start { of: PhantomData }, of: PhantomData }
    }
}

impl<M: BasicMail, S: StepList<M>> Filter<M, S> {
    /// The steps, in the order in which they are run.
    pub closed spec fn steps(&self) -> S {
        self.steps
    }

    /// Adds `step` behind the steps that are there.
    pub fn step<T: FilterStep<M, Action>>(self, step: T) -> (longer: Filter<M, Then<S, T>>)
        ensures
            longer.steps() == (Then { first: self.steps(), next: step }),
            longer.steps().len() == self.steps().len() + 1,
            forall|i: int, before: M, after: M, action: Action|
                i < self.steps().len() ==> #[trigger] longer.steps().admits(
                    i,
                    before,
                    after,
                    action,
                ) == self.steps().admits(i, before, after, action),
            forall|before: M, after: M, action: Action| #[trigger]
                longer.steps().admits(self.steps().len() as int, before, after, action)
                    == step.admits(before, after, action),
    {
        Filter { steps: Then { first: self.steps, next: step }, of: PhantomData }
    }

    /// Filters the mail: adds a step that runs `filter` on the mail and has
    /// the pipeline go on as its result asks. `filter` must accept every
    /// mail.
    pub fn filter<V: Verdict, F: Fn(&mut M) -> V>(self, filter: F) -> (longer: Filter<
        M,
        Then<S, Run<M, V, F>>,
    >)
        requires
            forall|mail: &mut M| call_requires(filter, (mail,)),
        ensures
            longer.steps().first == self.steps(),
            longer.steps().next.step.function() == filter,
            longer.steps().len() == self.steps().len() + 1,
            forall|i: int, before: M, after: M, action: Action|
                i < self.steps().len() ==> #[trigger] longer.steps().admits(
                    i,
                    before,
                    after,
                    action,
                ) == self.steps().admits(i, before, after, action),
            forall|before: M, after: M, action: Action| #[trigger]
                longer.steps().admits(self.steps().len() as int, before, after, action)
                    ==> exists|given: &mut M, returned: V|
                    *given == before && *final(given) == after && call_ensures(
                        filter,
                        (given,),
                        returned,
                    ) && action == returned.action(),
    {
        let step = Judge::new(Plain::new(filter));
        let longer = self.step(step);
        assert forall|before: M, after: M, action: Action| #[trigger]
            longer.steps().admits(
                self.steps().len() as int,
                before,
                after,
                action,
            ) implies exists|given: &mut M, returned: V|
            *given == before && *final(given) == after && call_ensures(filter, (given,), returned)
                && action == returned.action() by {
            lemma_run_admits(step, before, after, action);
        }
        longer
    }

    /// Adds a check: a step that runs `f` on the mail, and continues where
    /// `f` succeeds or rejects the mail with the error of `f`. `f` must
    /// accept every mail.
    pub fn and_then<F: Fn(&mut M) -> Result<(), Error>>(self, f: F) -> (longer: Filter<
        M,
        Then<S, Run<M, Result<(), Error>, F>>,
    >)
        requires
            forall|mail: &mut M| call_requires(f, (mail,)),
        ensures
            longer.steps().first == self.steps(),
            longer.steps().next.step.function() == f,
            longer.steps().len() == self.steps().len() + 1,
            forall|i: int, before: M, after: M, action: Action|
                i < self.steps().len() ==> #[trigger] longer.steps().admits(
                    i,
                    before,
                    after,
                    action,
                ) == self.steps().admits(i, before, after, action),
            forall|before: M, after: M, action: Action| #[trigger]
                longer.steps().admits(self.steps().len() as int, before, after, action)
                    ==> exists|given: &mut M, returned: Result<(), Error>|
                    *given == before && *final(given) == after && call_ensures(
                        f,
                        (given,),
                        returned,
                    ) && action == (match returned {
                        Ok(_) => Action::Continue,
                        Err(e) => Action::Reject(e),
                    }),
    {
        self.filter(f)
    }

    /// Adds a step that changes the mail by `f` and always continues. `f`
    /// must accept every mail.
    pub fn map<F: Fn(&mut M)>(self, f: F) -> (longer: Filter<M, Then<S, Run<M, (), F>>>)
        requires
            forall|mail: &mut M| call_requires(f, (mail,)),
        ensures
            longer.steps().first == self.steps(),
            longer.steps().next.step.function() == f,
            longer.steps().len() == self.steps().len() + 1,
            forall|i: int, before: M, after: M, action: Action|
                i < self.steps().len() ==> #[trigger] longer.steps().admits(
                    i,
                    before,
                    after,
                    action,
                ) == self.steps().admits(i, before, after, action),
            forall|before: M, after: M, action: Action| #[trigger]
                longer.steps().admits(self.steps().len() as int, before, after, action)
                    ==> action is Continue && exists|given: &mut M|
                    *given == before && *final(given) == after && call_ensures(f, (given,), ()),
    {
        self.filter(f)
    }

    /// Runs the steps on `mail`, in order, and returns what came of it.
    ///
    /// A step that continues hands the mail to the next one. A step that
    /// ignores ends the run: the mail is accepted as it is then, and no
    /// further step sees it. A step that rejects ends the run with its
    /// reply. A run through all steps accepts the mail.
    ///
    /// The run is the `trace`: for each step that was run, the action it
    /// returned and the mail it left.
    pub fn process(&self, mail: M) -> (result: Result<
        (Vec<u8>, MailAddrList, MailAddrList),
        String,
    >)
        ensures
            exists|trace: Seq<(Action, M)>|
                #![trigger outcome(mail, trace, result)]
                {
                    &&& trace.len() <= self.steps().len()
                    &&& forall|i: int|
                        0 <= i < trace.len() ==> self.steps().admits(
                            i,
                            mail_before(mail, trace, i),
                            (#[trigger] trace[i]).1,
                            trace[i].0,
                        )
                    &&& forall|i: int|
                        0 <= i < trace.len() - 1 ==> (#[trigger] trace[i]).0 is Continue
                    &&& trace.len() < self.steps().len() ==> trace.len() > 0 && !(trace.last().0
                        is Continue)
                    &&& outcome(mail, trace, result)
                },
    {
        let (last, stop) = self.steps.run(mail);
        let ghost trace = choose|trace: Seq<(Action, M)>|
            #![trigger stopped(trace)]
            runs(self.steps, mail, trace) && last == mail_before(mail, trace, trace.len() as int)
                && stop == stopped(trace);
        let result = match stop {
            Some(Action::Reject(err)) => Err(err.render()),
            _ => Ok(last.into_parts()),
        };
        assert(outcome(mail, trace, result));
        result
    }
}

/// A run in which every step continued went through all steps of the
/// list, and accepts the mail as the last step left it.
pub proof fn lemma_continues_reach_the_end<M: BasicMail, S: StepList<M>>(
    steps: S,
    start: M,
    trace: Seq<(Action, M)>,
    result: Result<(Vec<u8>, MailAddrList, MailAddrList), String>,
)
    requires
        runs(steps, start, trace),
        forall|i: int| 0 <= i < trace.len() ==> (#[trigger] trace[i]).0 is Continue,
    ensures
        trace.len() == steps.len(),
        outcome(start, trace, result) ==> result is Ok,
{
}

/// A run ends with the first step that does not continue: no step is run
/// behind one that ignored or rejected.
pub proof fn lemma_run_ends_at_first_stop<M: BasicMail, S: StepList<M>>(
    steps: S,
    start: M,
    trace: Seq<(Action, M)>,
    i: int,
)
    requires
        runs(steps, start, trace),
        0 <= i < trace.len(),
        !(trace[i].0 is Continue),
    ensures
        i == trace.len() - 1,
{
}

/// A run is accepted exactly if it did not end on a rejection, and a
/// rejected run fails with the status and the message of the rejection.
pub proof fn lemma_rejection_decides<M: BasicMail>(
    start: M,
    trace: Seq<(Action, M)>,
    result: Result<(Vec<u8>, MailAddrList, MailAddrList), String>,
)
    requires
        outcome(start, trace, result),
    ensures
        result is Err <==> trace.len() > 0 && trace.last().0 is Reject,
        result matches Err(text) ==> text@ == rendered(
            trace.last().0->Reject_0.status,
            trace.last().0->Reject_0.message@,
        ),
{
}

impl<M: BasicMail> Default for Filter<M, Start<M>> {
    fn default() -> (filter: Self)
        ensures
            filter.steps().len() == 0,
    {
        Filter::new()
    }
}

} // verus!
