//! The events of a Markdown body, and the rewriting of their text runs by a
//! script conversion.

use vstd::prelude::*;
use crate::cmd::Convert;
use crate::outside::{convert_each, parse_events, parsed_events};

verus! {

/// One event of a parsed Markdown body.
#[derive(Debug, PartialEq)]
pub enum BodyEvent {
    /// A run of text, which a conversion rewrites.
    Text(String),
    /// Any other event, which is carried through as the parser gave it.
    Markup(pulldown_cmark::Event<'static>),
}

/// An event as contracts speak of it: a text run is its characters.
pub enum EventView {
    Text(Seq<char>),
    Markup(pulldown_cmark::Event<'static>),
}

impl View for BodyEvent {
    type V = EventView;

    open spec fn view(&self) -> EventView {
        match *self {
            BodyEvent::Text(text) => EventView::Text(text@),
            BodyEvent::Markup(markup) => EventView::Markup(markup),
        }
    }
}

impl DeepView for BodyEvent {
    type V = EventView;

    open spec fn deep_view(&self) -> EventView {
        self@
    }
}

/// `convert`, handed the text `text` and the conversions `converts`, may
/// return `outcome`.
pub open spec fn converts_to<F, E>(
    convert: &F,
    converts: &[Convert],
    text: Seq<char>,
    outcome: Result<String, E>,
) -> bool
    where F: Fn(&str, &[Convert]) -> Result<String, E>
{
    exists|run: &str| run@ == text && convert.ensures((run, converts), outcome)
}

/// What rewriting one event may give: a text run becomes a text run with
/// what the conversion made of it, or the conversion's error; any other
/// event stays as it is.
pub open spec fn rewritten<F, E>(
    before: EventView,
    converts: &[Convert],
    convert: &F,
    after: Result<BodyEvent, E>,
) -> bool
    where F: Fn(&str, &[Convert]) -> Result<String, E>
{
    match before {
        EventView::Text(text) => match after {
            Ok(BodyEvent::Text(converted)) => converts_to(convert, converts, text, Ok(converted)),
            Ok(BodyEvent::Markup(_)) => false,
            Err(error) => converts_to(convert, converts, text, Err(error)),
        },
        EventView::Markup(_) => after is Ok && after->Ok_0@ == before,
    }
}

/// Rewrites one event.
pub fn convert_event<F, E>(event: BodyEvent, converts: &[Convert], convert: &F) -> (after: Result<
    BodyEvent,
    E,
>)
    where F: Fn(&str, &[Convert]) -> Result<String, E>
    requires
        forall|text: &str| convert.requires((text, converts)),
    ensures
        rewritten(event@, converts, convert, after),
{
    match event {
        BodyEvent::Text(text) => {
            match convert(text.as_str(), converts) {
                Ok(converted) => Ok(BodyEvent::Text(converted)),
                Err(error) => Err(error),
            }
        },
        BodyEvent::Markup(markup) => Ok(BodyEvent::Markup(markup)),
    }
}

/// The outcomes without their errors if there is none, else the first error.
pub fn all_or_first_error<T, E>(outcomes: Vec<Result<T, E>>) -> (all: Result<Vec<T>, E>)
    ensures
        match all {
            Ok(values) => {
                &&& values@.len() == outcomes@.len()
                &&& forall|i: int|
                    0 <= i < outcomes@.len() ==> outcomes@[i] == Ok::<T, E>(#[trigger] values@[i])
            },
            Err(error) => exists|i: int|
                {
                    &&& 0 <= i < outcomes@.len()
                    &&& #[trigger] outcomes@[i] == Err::<T, E>(error)
                    &&& forall|j: int| 0 <= j < i ==> (#[trigger] outcomes@[j]) is Ok
                },
        },
{
    let mut values: Vec<T> = Vec::new();
    for outcome in it: outcomes.into_iter()
        invariant
            it.seq() == outcomes@,
            values@.len() == it.index(),
            forall|i: int| 0 <= i < it.index() ==> outcomes@[i] == Ok::<T, E>(#[trigger] values@[i]),
    {
        match outcome {
            Ok(value) => {
                values.push(value);
            },
            Err(error) => {
                assert(outcomes@[it.index()] == Err::<T, E>(error));
                assert forall|j: int| 0 <= j < it.index() implies (#[trigger] outcomes@[j]) is Ok by {
                    assert(outcomes@[j] == Ok::<T, E>(values@[j]));
                }
                return Err(error);
            },
        }
    }
    Ok(values)
}

/// Rewriting the event may go without an error.
pub open spec fn may_succeed<F, E>(before: EventView, converts: &[Convert], convert: &F) -> bool
    where F: Fn(&str, &[Convert]) -> Result<String, E>
{
    exists|event: BodyEvent| rewritten(before, converts, convert, Ok::<BodyEvent, E>(event))
}

/// The event at `at` is the first whose rewriting failed, and `error` is what
/// it failed with.
pub open spec fn first_failure<F, E>(
    before: Seq<EventView>,
    converts: &[Convert],
    convert: &F,
    error: E,
    at: int,
) -> bool
    where F: Fn(&str, &[Convert]) -> Result<String, E>
{
    &&& 0 <= at < before.len()
    &&& rewritten(before[at], converts, convert, Err::<BodyEvent, E>(error))
    &&& forall|j: int| 0 <= j < at ==> may_succeed(#[trigger] before[j], converts, convert)
}

/// What transforming the events `before` may give: every event rewritten,
/// in the order in which they stood, or the error of the first text run in
/// that order whose conversion failed, and then no event at all.
pub open spec fn transforms_to<F, E>(
    before: Seq<EventView>,
    converts: &[Convert],
    convert: &F,
    outcome: Result<Vec<BodyEvent>, E>,
) -> bool
    where F: Fn(&str, &[Convert]) -> Result<String, E>
{
    match outcome {
        Ok(after) => {
            &&& after@.len() == before.len()
            &&& forall|i: int|
                0 <= i < before.len() ==> rewritten(
                    before[i],
                    converts,
                    convert,
                    Ok::<BodyEvent, E>(#[trigger] after@[i]),
                )
        },
        Err(error) => exists|i: int| first_failure(before, converts, convert, error, i),
    }
}

/// Rewrites the text runs of `events` by `convert`, all of them with the
/// same `converts`, and keeps every other event and the order.
pub fn transform<F, E>(events: Vec<BodyEvent>, converts: &[Convert], convert: &F) -> (outcome:
    Result<Vec<BodyEvent>, E>)
    where F: Fn(&str, &[Convert]) -> Result<String, E> + Sync, E: Send
    requires
        forall|text: &str| convert.requires((text, converts)),
    ensures
        transforms_to(events.deep_view(), converts, convert, outcome),
{
    let ghost before = events.deep_view();
    let outcomes = convert_each(events, converts, convert);
    let outcome = all_or_first_error(outcomes);
    proof {
        assert(before.len() == outcomes@.len());
        assert forall|i: int| 0 <= i < before.len() implies rewritten(
            before[i],
            converts,
            convert,
            #[trigger] outcomes@[i],
        ) by {
            assert(before[i] == events@[i]@);
        }
        if outcome is Ok {
            let after = outcome->Ok_0;
            assert forall|i: int| 0 <= i < before.len() implies rewritten(
                before[i],
                converts,
                convert,
                Ok::<BodyEvent, E>(#[trigger] after@[i]),
            ) by {
                assert(outcomes@[i] == Ok::<BodyEvent, E>(after@[i]));
            }
        } else {
            let error = outcome->Err_0;
            let i = choose|i: int|
                {
                    &&& 0 <= i < outcomes@.len()
                    &&& #[trigger] outcomes@[i] == Err::<BodyEvent, E>(error)
                    &&& forall|j: int| 0 <= j < i ==> (#[trigger] outcomes@[j]) is Ok
                };
            assert forall|j: int| 0 <= j < i implies may_succeed(
                #[trigger] before[j],
                converts,
                convert,
            ) by {
                assert(rewritten(
                    before[j],
                    converts,
                    convert,
                    Ok::<BodyEvent, E>(outcomes@[j]->Ok_0),
                ));
            }
            assert(first_failure(before, converts, convert, error, i));
        }
    }
    outcome
}

/// Parses a Markdown body, with every extension of the grammar but smart
/// punctuation, and rewrites its text runs by `convert`.
pub fn to_events<F, E>(markdown: &str, converts: &[Convert], convert: &F) -> (outcome: Result<
    Vec<BodyEvent>,
    E,
>)
    where F: Fn(&str, &[Convert]) -> Result<String, E> + Sync, E: Send
    requires
        forall|text: &str| convert.requires((text, converts)),
    ensures
        transforms_to(parsed_events(markdown@, false), converts, convert, outcome),
{
    let events = parse_events(markdown, false);
    transform(events, converts, convert)
}

/// `convert` fails on the text run `before`, whatever else it does.
pub open spec fn always_fails<F, E>(before: EventView, converts: &[Convert], convert: &F) -> bool
    where F: Fn(&str, &[Convert]) -> Result<String, E>
{
    before is Text && !may_succeed(before, converts, convert)
}

/// `convert` does not fail on the event `before`.
pub open spec fn never_fails<F, E>(before: EventView, converts: &[Convert], convert: &F) -> bool
    where F: Fn(&str, &[Convert]) -> Result<String, E>
{
    forall|error: E| !rewritten(before, converts, convert, Err::<BodyEvent, E>(error))
}

/// `convert` returns every text as it got it.
pub open spec fn is_identity<F, E>(converts: &[Convert], convert: &F) -> bool
    where F: Fn(&str, &[Convert]) -> Result<String, E>
{
    forall|run: &str, result: Result<String, E>| #[trigger]
        convert.ensures((run, converts), result) ==> result is Ok && result->Ok_0@ == run@
}

/// `convert` gives one result for one text: the same converted text, or the
/// same error.
pub open spec fn is_deterministic<F, E>(converts: &[Convert], convert: &F) -> bool
    where F: Fn(&str, &[Convert]) -> Result<String, E>
{
    forall|one: &str, other: &str, first: Result<String, E>, second: Result<String, E>|
        one@ == other@ && #[trigger] convert.ensures((one, converts), first)
            && #[trigger] convert.ensures((other, converts), second) ==> match first {
            Ok(text) => second is Ok && second->Ok_0@ == text@,
            Err(error) => second == Err::<String, E>(error),
        }
}

/// Where no event is a text run, the transformation succeeds and gives the
/// events as they were, whatever the conversion is.
pub proof fn lemma_markup_is_kept<F, E>(
    before: Seq<EventView>,
    converts: &[Convert],
    convert: &F,
    outcome: Result<Vec<BodyEvent>, E>,
)
    where F: Fn(&str, &[Convert]) -> Result<String, E>
    requires
        transforms_to(before, converts, convert, outcome),
        forall|i: int| 0 <= i < before.len() ==> (#[trigger] before[i]) is Markup,
    ensures
        outcome is Ok,
        outcome->Ok_0.deep_view() == before,
{
    if outcome is Ok {
        let after = outcome->Ok_0;
        assert forall|i: int| 0 <= i < before.len() implies after.deep_view()[i] == before[i] by {
            assert(rewritten(before[i], converts, convert, Ok::<BodyEvent, E>(after@[i])));
        }
        assert(after.deep_view() =~= before);
    }
}

/// With a conversion that returns every text as it got it, the
/// transformation succeeds and gives the events as they were.
pub proof fn lemma_identity_keeps_events<F, E>(
    before: Seq<EventView>,
    converts: &[Convert],
    convert: &F,
    outcome: Result<Vec<BodyEvent>, E>,
)
    where F: Fn(&str, &[Convert]) -> Result<String, E>
    requires
        transforms_to(before, converts, convert, outcome),
        is_identity(converts, convert),
    ensures
        outcome is Ok,
        outcome->Ok_0.deep_view() == before,
{
    if outcome is Ok {
        let after = outcome->Ok_0;
        assert forall|i: int| 0 <= i < before.len() implies after.deep_view()[i] == before[i] by {
            assert(rewritten(before[i], converts, convert, Ok::<BodyEvent, E>(after@[i])));
        }
        assert(after.deep_view() =~= before);
    }
}

/// With a conversion that gives one result for one text, two transformations
/// of the same events end alike: with the same events in the same order, or
/// with the same error.
pub proof fn lemma_transform_is_repeatable<F, E>(
    before: Seq<EventView>,
    converts: &[Convert],
    convert: &F,
    first: Result<Vec<BodyEvent>, E>,
    second: Result<Vec<BodyEvent>, E>,
)
    where F: Fn(&str, &[Convert]) -> Result<String, E>
    requires
        transforms_to(before, converts, convert, first),
        transforms_to(before, converts, convert, second),
        is_deterministic(converts, convert),
    ensures
        match first {
            Ok(events) => second is Ok && second->Ok_0.deep_view() == events.deep_view(),
            Err(error) => second == Err::<Vec<BodyEvent>, E>(error),
        },
{
    match (first, second) {
        (Ok(one), Ok(other)) => {
            assert forall|i: int| 0 <= i < before.len() implies one.deep_view()[i]
                == other.deep_view()[i] by {
                assert(rewritten(before[i], converts, convert, Ok::<BodyEvent, E>(one@[i])));
                assert(rewritten(before[i], converts, convert, Ok::<BodyEvent, E>(other@[i])));
            }
            assert(one.deep_view() =~= other.deep_view());
        },
        (Ok(one), Err(error)) => {
            let i = choose|i: int| first_failure(before, converts, convert, error, i);
            assert(rewritten(before[i], converts, convert, Ok::<BodyEvent, E>(one@[i])));
        },
        (Err(error), Ok(other)) => {
            let i = choose|i: int| first_failure(before, converts, convert, error, i);
            assert(rewritten(before[i], converts, convert, Ok::<BodyEvent, E>(other@[i])));
        },
        (Err(one), Err(other)) => {
            let i = choose|i: int| first_failure(before, converts, convert, one, i);
            let j = choose|j: int| first_failure(before, converts, convert, other, j);
            if i < j {
                assert(may_succeed(before[i], converts, convert));
            } else if j < i {
                assert(may_succeed(before[j], converts, convert));
            }
        },
    }
}

/// Where the conversion fails on one text run and on no other event, the
/// transformation fails, with an error of that run's conversion.
pub proof fn lemma_one_failure_fails_all<F, E>(
    before: Seq<EventView>,
    converts: &[Convert],
    convert: &F,
    outcome: Result<Vec<BodyEvent>, E>,
    failing: int,
)
    where F: Fn(&str, &[Convert]) -> Result<String, E>
    requires
        transforms_to(before, converts, convert, outcome),
        0 <= failing < before.len(),
        always_fails(before[failing], converts, convert),
        forall|i: int|
            0 <= i < before.len() && i != failing ==> never_fails(
                #[trigger] before[i],
                converts,
                convert,
            ),
    ensures
        outcome is Err,
        rewritten(before[failing], converts, convert, Err::<BodyEvent, E>(outcome->Err_0)),
{
    match outcome {
        Ok(after) => {
            assert(rewritten(
                before[failing],
                converts,
                convert,
                Ok::<BodyEvent, E>(after@[failing]),
            ));
        },
        Err(error) => {
            let i = choose|i: int| first_failure(before, converts, convert, error, i);
            if i != failing {
                assert(never_fails(before[i], converts, convert));
            }
        },
    }
}

} // verus!
