//! Things to be done one after the other, of which the first that fails ends the rest.
use vstd::prelude::*;

use crate::error::Error;

verus! {

/// How a series goes on.
#[derive(PartialEq, Eq, Debug)]
pub enum Progress<T> {
    /// This is to be done next.
    Perform(T),
    /// It is over.
    Finished(Result<(), Error>),
}

/// Things to be done one after the other. The first that fails ends the rest.
#[derive(PartialEq, Eq, Debug)]
pub struct Series<T> {
    /// What is still to be done, in its order.
    pub rest: Vec<T>,
    /// Whether something is being done.
    pub busy: bool,
}

/// Whether a series is one that begins with nothing done, and consists of `items`.
pub open spec fn consists_of<T>(series: Series<T>, items: Seq<T>) -> bool {
    series.rest@ == items && !series.busy
}

/// What going on with a series comes to, once what was being done had that outcome.
pub open spec fn went_on<T>(
    before: Series<T>,
    outcome: Result<(), Error>,
    after: Series<T>,
    progress: Progress<T>,
) -> bool {
    match outcome {
        Err(error) if before.busy => {
            &&& progress == Progress::<T>::Finished(Err(error))
            &&& consists_of(after, Seq::empty())
        },
        _ => if before.rest@.len() > 0 {
            &&& progress == Progress::Perform(before.rest@[0])
            &&& after.rest@ == before.rest@.skip(1)
            &&& after.busy
        } else {
            &&& progress matches Progress::Finished(result) && result is Ok
            &&& consists_of(after, Seq::empty())
        },
    }
}

impl<T> Series<T> {
    /// A series of these things, with nothing done.
    pub fn new(items: Vec<T>) -> (series: Self)
        ensures
            consists_of(series, items@),
    {
        Series { rest: items, busy: false }
    }

    /// Goes on once something was done.
    ///
    /// Where it failed, nothing else is done, and the caller hears why. The first call begins the
    /// series, and its outcome means nothing.
    pub fn resume(&mut self, outcome: Result<(), Error>) -> (progress: Progress<T>)
        ensures
            went_on(*old(self), outcome, *final(self), progress),
    {
        if self.busy {
            if let Err(error) = outcome {
                self.rest.clear();
                self.busy = false;
                return Progress::Finished(Err(error));
            }
        }
        if self.rest.len() > 0 {
            self.busy = true;
            let next = self.rest.remove(0);
            assert(self.rest@ =~= old(self).rest@.skip(1));
            Progress::Perform(next)
        } else {
            self.busy = false;
            assert(self.rest@ =~= Seq::empty());
            Progress::Finished(Ok(()))
        }
    }
}

/// Whatever fails ends the series with its error, and nothing is done after that.
pub proof fn law_first_failure_ends_the_series<T>(
    before: Series<T>,
    error: Error,
    after: Series<T>,
    progress: Progress<T>,
    outcome: Result<(), Error>,
    later: Series<T>,
    more: Progress<T>,
)
    requires
        before.busy,
        went_on(before, Err(error), after, progress),
        went_on(after, outcome, later, more),
    ensures
        progress == Progress::<T>::Finished(Err(error)),
        more is Finished,
{
}

/// While nothing fails, everything is done, in its order, and then the series is over. Whatever is
/// said before something was done makes no difference.
pub proof fn law_everything_is_done_in_order<T>(
    items: Seq<T>,
    stages: Seq<Series<T>>,
    outcomes: Seq<Result<(), Error>>,
    progress: Seq<Progress<T>>,
    n: int,
)
    requires
        stages.len() > 0,
        consists_of(stages[0], items),
        outcomes.len() == stages.len() - 1,
        progress.len() == stages.len() - 1,
        forall|i: int| 0 < i < outcomes.len() ==> #[trigger] outcomes[i] is Ok,
        forall|i: int|
            0 <= i < progress.len() ==> went_on(
                stages[i],
                outcomes[i],
                stages[i + 1],
                #[trigger] progress[i],
            ),
        0 <= n < progress.len(),
    ensures
        n < items.len() ==> progress[n] == Progress::Perform(items[n]),
        n >= items.len() ==> (progress[n] matches Progress::Finished(result) && result is Ok),
{
    lemma_stage(items, stages, outcomes, progress, n);
    assert(went_on(stages[n], outcomes[n], stages[n + 1], progress[n]));
    if n < items.len() {
        assert(items.skip(n)[0] == items[n]);
    }
}

/// What is left of a series after some of it was done.
proof fn lemma_stage<T>(
    items: Seq<T>,
    stages: Seq<Series<T>>,
    outcomes: Seq<Result<(), Error>>,
    progress: Seq<Progress<T>>,
    n: int,
)
    requires
        stages.len() > 0,
        consists_of(stages[0], items),
        outcomes.len() == stages.len() - 1,
        progress.len() == stages.len() - 1,
        forall|i: int| 0 < i < outcomes.len() ==> #[trigger] outcomes[i] is Ok,
        forall|i: int|
            0 <= i < progress.len() ==> went_on(
                stages[i],
                outcomes[i],
                stages[i + 1],
                #[trigger] progress[i],
            ),
        0 <= n < stages.len(),
    ensures
        stages[n].rest@ == (if n <= items.len() {
            items.skip(n)
        } else {
            Seq::empty()
        }),
        n == 0 ==> !stages[n].busy,
    decreases n,
{
    if n == 0 {
        assert(items.skip(0) =~= items);
    } else {
        lemma_stage(items, stages, outcomes, progress, n - 1);
        assert(went_on(stages[n - 1], outcomes[n - 1], stages[n], progress[n - 1]));
        if n <= items.len() {
            assert(items.skip(n - 1).skip(1) =~= items.skip(n));
        }
    }
}

} // verus!
