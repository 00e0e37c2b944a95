//! Whole attempts: what an observer sees when the machine is pumped through
//! a series of outcomes, and what holds of every such series.
use vstd::prelude::*;

use super::paths::lemma_final_of_part;
use super::paths::part_path_of;
use super::subscribe::counter_fits;
use super::subscribe::lemma_percent_rises;
use super::subscribe::percent_of;
use super::subscribe::request_of;
use super::subscribe::step;
use super::subscribe::stream_state_machine;
use super::subscribe::DownloadDataView;
use super::subscribe::Error;
use super::subscribe::Fault;
use super::subscribe::Outcome;
use super::subscribe::Progress;
use super::subscribe::RequestView;
use super::subscribe::StateView;
use super::Download;

verus! {

/// The events that come out when the machine is pumped from `state` with
/// `outcomes`, one after the other, until an outcome yields nothing.
pub open spec fn events(state: StateView, outcomes: Seq<Outcome>) -> Seq<Progress>
    decreases outcomes.len(),
{
    if outcomes.len() == 0 {
        Seq::empty()
    } else {
        match step(state, outcomes[0]) {
            Some((event, next)) => seq![event] + events(next, outcomes.drop_first()),
            None => Seq::empty(),
        }
    }
}

/// The state that the machine is in once it has taken all of `outcomes`;
/// `None` if one of them yielded nothing, which ends the attempt.
pub open spec fn state_after(state: StateView, outcomes: Seq<Outcome>) -> Option<StateView>
    decreases outcomes.len(),
{
    if outcomes.len() == 0 {
        Some(state)
    } else {
        match step(state, outcomes[0]) {
            Some((_, next)) => state_after(next, outcomes.drop_first()),
            None => None,
        }
    }
}

/// Whether the byte counter takes in every chunk of the steps that the
/// machine makes from `state` with `outcomes`. What follows the end of the
/// attempt is not asked about.
pub open spec fn fits_along(state: StateView, outcomes: Seq<Outcome>) -> bool
    decreases outcomes.len(),
{
    outcomes.len() == 0 || (counter_fits(state, outcomes[0]) && match step(state, outcomes[0]) {
        Some((_, next)) => fits_along(next, outcomes.drop_first()),
        None => true,
    })
}

/// The sum of the lengths of a series of chunks.
pub open spec fn total_len(lens: Seq<u64>) -> nat
    decreases lens.len(),
{
    if lens.len() == 0 {
        0
    } else {
        lens[0] as nat + total_len(lens.drop_first())
    }
}

/// The outcomes that report the chunks of these lengths, in order.
pub open spec fn chunks(lens: Seq<u64>) -> Seq<Outcome> {
    Seq::new(lens.len(), |i: int| Outcome::Chunk(lens[i]))
}

/// The events that report the chunks of these lengths, for a transfer that
/// stands at `downloaded` bytes of `total`.
pub open spec fn advances(downloaded: u64, total: Option<u64>, lens: Seq<u64>) -> Seq<Progress>
    decreases lens.len(),
{
    if lens.len() == 0 {
        Seq::empty()
    } else {
        let next = (downloaded + lens[0]) as u64;
        seq![Progress::Advanced { downloaded: next, total }] + advances(
            next,
            total,
            lens.drop_first(),
        )
    }
}

/// The outcomes of an attempt in which everything went well: the server
/// announced `total`, sent chunks of the lengths `lens`, and the file was
/// moved into place.
pub open spec fn success(total: Option<u64>, lens: Seq<u64>) -> Seq<Outcome> {
    seq![Outcome::Opened(total)] + chunks(lens) + seq![Outcome::EndOfData, Outcome::Renamed]
}

/// The outcomes of an attempt that broke off with `fault` after chunks of
/// the lengths `lens` had been written.
pub open spec fn broken(total: Option<u64>, lens: Seq<u64>, fault: Fault) -> Seq<Outcome> {
    seq![Outcome::Opened(total)] + chunks(lens) + seq![Outcome::Failed(fault)]
}

/// How far the stream of an attempt has got, as an observer sees it.
pub enum Stage {
    /// No event yet.
    Fresh,
    /// `Started` was seen; chunks may follow.
    Running,
    /// `Finished` was seen.
    Complete,
    /// An error was seen.
    Failed,
}

/// The stage that an event leads to, or `None` where the event may not
/// follow at this stage.
pub open spec fn stage_after(stage: Stage, event: Progress) -> Option<Stage> {
    match (stage, event) {
        (Stage::Fresh, Progress::Started) => Some(Stage::Running),
        (Stage::Running, Progress::Advanced { .. }) => Some(Stage::Running),
        (Stage::Running, Progress::Finished) => Some(Stage::Complete),
        (Stage::Fresh, Progress::Error(_)) => Some(Stage::Failed),
        (Stage::Running, Progress::Error(_)) => Some(Stage::Failed),
        (Stage::Complete, Progress::Error(_)) => Some(Stage::Failed),
        _ => None,
    }
}

/// Whether `events` may be seen, in this order, from `stage` on: one
/// `Started` or an error in its place, then any number of `Advanced`, then
/// `Finished` or an error; after `Finished` only the error of a failed
/// rename, and after an error nothing.
pub open spec fn orderly(stage: Stage, events: Seq<Progress>) -> bool
    decreases events.len(),
{
    events.len() == 0 || match stage_after(stage, events[0]) {
        Some(next) => orderly(next, events.drop_first()),
        None => false,
    }
}

/// The stage at which an observer stands while the machine is in `state`.
pub open spec fn stage_of(state: StateView) -> Stage {
    match state {
        StateView::Start(_, _) => Stage::Fresh,
        StateView::Downloading(_) => Stage::Running,
        StateView::Finished(_) => Stage::Complete,
        StateView::Errored => Stage::Failed,
    }
}

impl Download {
    /// The events of the attempt at this download in which the work went as
    /// `outcomes` say, in their order. Outcomes that come after the end of
    /// the attempt are not looked at.
    pub fn stream(self, outcomes: &Vec<Outcome>) -> (seen: Vec<Progress>)
        requires
            fits_along(StateView::Start(self.url@, self.path@), outcomes@),
        ensures
            seen@ == events(StateView::Start(self.url@, self.path@), outcomes@),
    {
        let ghost begin = StateView::Start(self.url@, self.path@);
        let mut state = self.begin();
        let mut seen: Vec<Progress> = Vec::new();
        let mut i: usize = 0;
        assert(outcomes@.skip(0) =~= outcomes@);
        while i < outcomes.len()
            invariant
                i <= outcomes.len(),
                begin == StateView::Start(self.url@, self.path@),
                events(begin, outcomes@) == seen@ + events(state@, outcomes@.skip(i as int)),
                fits_along(state@, outcomes@.skip(i as int)),
            decreases outcomes.len() - i,
        {
            let ghost rest = outcomes@.skip(i as int);
            proof {
                assert(rest[0] == outcomes@[i as int]);
                assert(rest.drop_first() =~= outcomes@.skip(i + 1));
            }
            let ghost before = state@;
            match stream_state_machine(state, outcomes[i]) {
                Some((event, next)) => {
                    assert(seen@ + (seq![event] + events(next@, rest.drop_first())) =~= seen@.push(
                        event,
                    ) + events(next@, rest.drop_first()));
                    seen.push(event);
                    state = next;
                    i = i + 1;
                },
                None => {
                    assert(events(before, rest) =~= Seq::<Progress>::empty());
                    assert(seen@ + Seq::<Progress>::empty() =~= seen@);
                    return seen;
                },
            }
        }
        assert(seen@ + Seq::<Progress>::empty() =~= seen@);
        seen
    }
}

/// The percentage that an event reports; 0 for an event that reports none.
pub open spec fn percentage(event: Progress) -> nat {
    match event {
        Progress::Advanced { downloaded, total } => percent_of(downloaded, total),
        _ => 0,
    }
}

/// The states that an attempt at storing a download at `path` can be in.
pub open spec fn on_course(path: Seq<char>, state: StateView) -> bool {
    match state {
        StateView::Start(_, to) => to == path,
        StateView::Downloading(data) => data.path == part_path_of(path),
        StateView::Finished(temp_path) => temp_path == part_path_of(path),
        StateView::Errored => true,
    }
}

proof fn lemma_one_outcome(state: StateView, outcome: Outcome, rest: Seq<Outcome>)
    ensures
        events(state, seq![outcome] + rest) == match step(state, outcome) {
            Some((event, next)) => seq![event] + events(next, rest),
            None => Seq::empty(),
        },
        state_after(state, seq![outcome] + rest) == match step(state, outcome) {
            Some((_, next)) => state_after(next, rest),
            None => None,
        },
{
    let outcomes = seq![outcome] + rest;
    assert(outcomes[0] == outcome);
    assert(outcomes.drop_first() =~= rest);
}

proof fn lemma_chunks_unfold(lens: Seq<u64>, rest: Seq<Outcome>)
    requires
        lens.len() > 0,
    ensures
        chunks(lens) + rest == seq![Outcome::Chunk(lens[0])] + (chunks(lens.drop_first()) + rest),
{
    assert(chunks(lens) + rest =~= seq![Outcome::Chunk(lens[0])] + (chunks(lens.drop_first())
        + rest));
}

proof fn lemma_transfer(data: DownloadDataView, lens: Seq<u64>, rest: Seq<Outcome>)
    requires
        data.downloaded + total_len(lens) <= u64::MAX,
    ensures
        ({
            let arrived = StateView::Downloading(
                DownloadDataView {
                    downloaded: (data.downloaded + total_len(lens)) as u64,
                    ..data
                },
            );
            &&& events(StateView::Downloading(data), chunks(lens) + rest) == advances(
                data.downloaded,
                data.total,
                lens,
            ) + events(arrived, rest)
            &&& state_after(StateView::Downloading(data), chunks(lens) + rest) == state_after(
                arrived,
                rest,
            )
        }),
    decreases lens.len(),
{
    let state = StateView::Downloading(data);
    if lens.len() == 0 {
        assert(chunks(lens) + rest =~= rest);
        assert(advances(data.downloaded, data.total, lens) + events(state, rest) =~= events(
            state,
            rest,
        ));
    } else {
        let tail = lens.drop_first();
        let next = DownloadDataView { downloaded: (data.downloaded + lens[0]) as u64, ..data };
        let arrived = StateView::Downloading(
            DownloadDataView { downloaded: (data.downloaded + total_len(lens)) as u64, ..data },
        );
        lemma_chunks_unfold(lens, rest);
        lemma_one_outcome(state, Outcome::Chunk(lens[0]), chunks(tail) + rest);
        lemma_transfer(next, tail, rest);
        assert(advances(data.downloaded, data.total, lens) + events(arrived, rest) =~= seq![
            Progress::Advanced { downloaded: next.downloaded, total: data.total },
        ] + (advances(next.downloaded, data.total, tail) + events(arrived, rest)));
    }
}

proof fn lemma_opened_and_filled(
    url: Seq<char>,
    path: Seq<char>,
    total: Option<u64>,
    lens: Seq<u64>,
    rest: Seq<Outcome>,
)
    requires
        total_len(lens) <= u64::MAX,
    ensures
        ({
            let begin = StateView::Start(url, path);
            let filled = StateView::Downloading(
                DownloadDataView {
                    total,
                    downloaded: total_len(lens) as u64,
                    path: part_path_of(path),
                },
            );
            let outcomes = seq![Outcome::Opened(total)] + chunks(lens) + rest;
            &&& events(begin, outcomes) == seq![Progress::Started] + advances(0, total, lens)
                + events(filled, rest)
            &&& state_after(begin, outcomes) == state_after(filled, rest)
        }),
{
    let begin = StateView::Start(url, path);
    let opened = DownloadDataView { total, downloaded: 0, path: part_path_of(path) };
    let filled = StateView::Downloading(
        DownloadDataView { downloaded: total_len(lens) as u64, ..opened },
    );
    let outcomes = seq![Outcome::Opened(total)] + chunks(lens) + rest;
    assert(outcomes =~= seq![Outcome::Opened(total)] + (chunks(lens) + rest));
    lemma_one_outcome(begin, Outcome::Opened(total), chunks(lens) + rest);
    lemma_transfer(opened, lens, rest);
    assert(seq![Progress::Started] + (advances(0, total, lens) + events(filled, rest))
        =~= seq![Progress::Started] + advances(0, total, lens) + events(filled, rest));
}

proof fn lemma_advances_len(downloaded: u64, total: Option<u64>, lens: Seq<u64>)
    ensures
        advances(downloaded, total, lens).len() == lens.len(),
    decreases lens.len(),
{
    if lens.len() > 0 {
        lemma_advances_len((downloaded + lens[0]) as u64, total, lens.drop_first());
    }
}

proof fn lemma_advances_at(downloaded: u64, total: Option<u64>, lens: Seq<u64>, i: int)
    requires
        downloaded + total_len(lens) <= u64::MAX,
        0 <= i < lens.len(),
    ensures
        advances(downloaded, total, lens).len() == lens.len(),
        advances(downloaded, total, lens)[i] matches Progress::Advanced {
            downloaded: so_far,
            total: of,
        } && of == total && downloaded <= so_far <= downloaded + total_len(lens),
        i == lens.len() - 1 ==> advances(downloaded, total, lens)[i] == (Progress::Advanced {
            downloaded: (downloaded + total_len(lens)) as u64,
            total,
        }),
    decreases lens.len(),
{
    lemma_advances_len(downloaded, total, lens);
    let tail = lens.drop_first();
    if i > 0 {
        lemma_advances_at((downloaded + lens[0]) as u64, total, tail, i - 1);
    } else if lens.len() == 1 {
        assert(total_len(tail) == 0);
    }
}

proof fn lemma_advances_rise(
    downloaded: u64,
    total: Option<u64>,
    lens: Seq<u64>,
    i: int,
    j: int,
)
    requires
        downloaded + total_len(lens) <= u64::MAX,
        0 <= i <= j < lens.len(),
    ensures
        advances(downloaded, total, lens)[i] matches Progress::Advanced { downloaded: first, .. }
            && advances(downloaded, total, lens)[j] matches Progress::Advanced {
            downloaded: second,
            ..
        } && first <= second,
    decreases lens.len(),
{
    let tail = lens.drop_first();
    let next = (downloaded + lens[0]) as u64;
    lemma_advances_at(downloaded, total, lens, i);
    lemma_advances_at(downloaded, total, lens, j);
    if i > 0 {
        lemma_advances_rise(next, total, tail, i - 1, j - 1);
    } else if j > 0 {
        lemma_advances_at(next, total, tail, j - 1);
    }
}

/// Whether `outcome` is one that the work asked for by `state` can have.
pub open spec fn answers(state: StateView, outcome: Outcome) -> bool {
    match request_of(state) {
        RequestView::Open { .. } => outcome is Opened || outcome is Failed,
        RequestView::Transfer { .. } => outcome is Chunk || outcome is EndOfData
            || outcome is Failed,
        RequestView::Rename { .. } => outcome is Renamed || outcome is Failed,
        RequestView::Nothing => false,
    }
}

/// A step whose outcome answers the request always yields an event, but
/// for the one that ends a successful attempt: the rename of the finished
/// file. Nothing is yielded besides only where nothing was asked for, or
/// where the outcome is none that the request can have.
pub proof fn lemma_nothing_only_at_the_end(state: StateView, outcome: Outcome)
    ensures
        step(state, outcome) is None <==> (state is Finished && outcome is Renamed) || !answers(
            state,
            outcome,
        ),
        state is Errored ==> !answers(state, outcome),
{
}

/// While a transfer is under way, the size that the server announced and
/// the temporary file stay what they were when it began, and the count of
/// bytes written never falls.
pub proof fn lemma_transfer_is_steady(data: DownloadDataView, outcome: Outcome)
    requires
        counter_fits(StateView::Downloading(data), outcome),
    ensures
        step(StateView::Downloading(data), outcome) matches Some((_, StateView::Downloading(next)))
            ==> next.total == data.total && next.path == data.path && next.downloaded
            >= data.downloaded,
{
}

/// Once an attempt has failed, no outcome brings it back to life: there is
/// no further event and no further state.
pub proof fn lemma_failure_is_final(outcome: Outcome)
    ensures
        step(StateView::Errored, outcome) is None,
{
}

/// Every stream is in order, whatever the outcomes: at most one `Started`,
/// progress only between `Started` and the end, and nothing after an error.
pub proof fn lemma_stream_is_orderly(state: StateView, outcomes: Seq<Outcome>)
    ensures
        orderly(stage_of(state), events(state, outcomes)),
    decreases outcomes.len(),
{
    if outcomes.len() > 0 {
        if let Some((event, next)) = step(state, outcomes[0]) {
            lemma_stream_is_orderly(next, outcomes.drop_first());
            let seen = events(state, outcomes);
            assert(seen[0] == event);
            assert(seen.drop_first() =~= events(next, outcomes.drop_first()));
            assert(stage_after(stage_of(state), event) == Some(stage_of(next)));
        }
    }
}

/// No attempt ever asks for work on a file other than its temporary file,
/// and the final path is named by the rename alone: as long as the attempt
/// lives, its request is to open or to fill `path` with the suffix, or to
/// move that file to `path`.
pub proof fn lemma_requests_stay_on_course(
    url: Seq<char>,
    path: Seq<char>,
    outcomes: Seq<Outcome>,
)
    ensures
        state_after(StateView::Start(url, path), outcomes) matches Some(state) ==> on_course(
            path,
            state,
        ) && match request_of(state) {
            RequestView::Open { url: source, file } => source == url && file == part_path_of(path),
            RequestView::Transfer { file } => file == part_path_of(path),
            RequestView::Rename { from, to } => from == part_path_of(path) && to == path,
            RequestView::Nothing => true,
        },
{
    let begin = StateView::Start(url, path);
    lemma_course_is_kept(path, begin, outcomes);
    lemma_final_of_part(path);
    if let Some(state) = state_after(begin, outcomes) {
        lemma_url_is_kept(url, path, outcomes);
    }
}

proof fn lemma_course_is_kept(path: Seq<char>, state: StateView, outcomes: Seq<Outcome>)
    requires
        on_course(path, state),
    ensures
        state_after(state, outcomes) matches Some(last) ==> on_course(path, last),
    decreases outcomes.len(),
{
    if outcomes.len() > 0 {
        if let Some((_, next)) = step(state, outcomes[0]) {
            lemma_course_is_kept(path, next, outcomes.drop_first());
        }
    }
}

proof fn lemma_never_back_to_start(state: StateView, outcomes: Seq<Outcome>)
    requires
        !(state is Start),
    ensures
        state_after(state, outcomes) matches Some(last) ==> !(last is Start),
    decreases outcomes.len(),
{
    if outcomes.len() > 0 {
        if let Some((_, next)) = step(state, outcomes[0]) {
            lemma_never_back_to_start(next, outcomes.drop_first());
        }
    }
}

proof fn lemma_url_is_kept(url: Seq<char>, path: Seq<char>, outcomes: Seq<Outcome>)
    ensures
        state_after(StateView::Start(url, path), outcomes) matches Some(StateView::Start(
            source,
            _,
        )) ==> source == url,
{
    if outcomes.len() > 0 {
        if let Some((_, next)) = step(StateView::Start(url, path), outcomes[0]) {
            lemma_never_back_to_start(next, outcomes.drop_first());
        }
    }
}

/// The rename is asked for only once `Finished` has been published: while
/// an attempt has not seen the end of the body, the final path is left alone.
pub proof fn lemma_rename_follows_finished(state: StateView, outcomes: Seq<Outcome>)
    requires
        !(state is Finished),
    ensures
        state_after(state, outcomes) matches Some(last) ==> (request_of(last) is Rename ==> events(
            state,
            outcomes,
        ).len() > 0 && events(state, outcomes).last() == Progress::Finished),
    decreases outcomes.len(),
{
    if outcomes.len() > 0 {
        if let Some((event, next)) = step(state, outcomes[0]) {
            let rest = outcomes.drop_first();
            if next is Finished {
                lemma_stays_finished(next, rest);
                if state_after(next, rest) == Some(next) {
                    assert(events(state, outcomes) =~= seq![event]);
                }
            } else {
                lemma_rename_follows_finished(next, rest);
                if let Some(last) = state_after(next, rest) {
                    if request_of(last) is Rename {
                        assert(events(state, outcomes).last() == events(next, rest).last());
                    }
                }
            }
        }
    }
}

proof fn lemma_stays_finished(state: StateView, outcomes: Seq<Outcome>)
    requires
        state is Finished,
    ensures
        state_after(state, outcomes) matches Some(last) ==> (last is Finished ==> last == state
            && events(state, outcomes).len() == 0),
    decreases outcomes.len(),
{
    if outcomes.len() > 0 {
        if let Some((_, next)) = step(state, outcomes[0]) {
            lemma_never_live_again(outcomes.drop_first());
        }
    }
}

proof fn lemma_never_live_again(outcomes: Seq<Outcome>)
    ensures
        state_after(StateView::Errored, outcomes) matches Some(last) ==> last is Errored,
        events(StateView::Errored, outcomes).len() == 0,
{
}

/// An attempt in which everything goes well publishes `Started`, one
/// `Advanced` for each chunk, and `Finished`, and nothing else. When the
/// body has ended the counter holds the sum of the chunks' lengths, and what
/// is left to do is to move the temporary file to the path that was asked
/// for; after that the attempt is over.
pub proof fn lemma_successful_attempt(
    url: Seq<char>,
    path: Seq<char>,
    total: Option<u64>,
    lens: Seq<u64>,
)
    requires
        total_len(lens) <= u64::MAX,
    ensures
        ({
            let begin = StateView::Start(url, path);
            let filled = StateView::Downloading(
                DownloadDataView {
                    total,
                    downloaded: total_len(lens) as u64,
                    path: part_path_of(path),
                },
            );
            let complete = StateView::Finished(part_path_of(path));
            &&& events(begin, success(total, lens)) == seq![Progress::Started] + advances(
                0,
                total,
                lens,
            ) + seq![Progress::Finished]
            &&& state_after(begin, seq![Outcome::Opened(total)] + chunks(lens)) == Some(filled)
            &&& state_after(begin, success(total, lens).drop_last()) == Some(complete)
            &&& request_of(complete) == (RequestView::Rename {
                from: part_path_of(path),
                to: path,
            })
            &&& state_after(begin, success(total, lens)) is None
        }),
{
    let begin = StateView::Start(url, path);
    let filled = StateView::Downloading(
        DownloadDataView { total, downloaded: total_len(lens) as u64, path: part_path_of(path) },
    );
    let complete = StateView::Finished(part_path_of(path));
    let end = seq![Outcome::EndOfData, Outcome::Renamed];
    let all_in = seq![Outcome::EndOfData];
    let body = seq![Outcome::Opened(total)] + chunks(lens);
    lemma_final_of_part(path);

    lemma_opened_and_filled(url, path, total, lens, end);
    lemma_opened_and_filled(url, path, total, lens, all_in);
    lemma_opened_and_filled(url, path, total, lens, Seq::empty());
    assert(body + Seq::<Outcome>::empty() =~= body);
    assert(success(total, lens).drop_last() =~= body + all_in);

    assert(end =~= seq![Outcome::EndOfData] + seq![Outcome::Renamed]);
    lemma_one_outcome(filled, Outcome::EndOfData, seq![Outcome::Renamed]);
    assert(seq![Outcome::Renamed] =~= seq![Outcome::Renamed] + Seq::<Outcome>::empty());
    lemma_one_outcome(complete, Outcome::Renamed, Seq::empty());
    assert(all_in =~= seq![Outcome::EndOfData] + Seq::<Outcome>::empty());
    lemma_one_outcome(filled, Outcome::EndOfData, Seq::empty());
    assert(events(begin, success(total, lens)) =~= seq![Progress::Started] + advances(
        0,
        total,
        lens,
    ) + seq![Progress::Finished]);
}

proof fn lemma_chunks_fit(data: DownloadDataView, lens: Seq<u64>, rest: Seq<Outcome>)
    requires
        data.downloaded + total_len(lens) <= u64::MAX,
        fits_along(
            StateView::Downloading(
                DownloadDataView {
                    downloaded: (data.downloaded + total_len(lens)) as u64,
                    ..data
                },
            ),
            rest,
        ),
    ensures
        fits_along(StateView::Downloading(data), chunks(lens) + rest),
    decreases lens.len(),
{
    if lens.len() == 0 {
        assert(chunks(lens) + rest =~= rest);
    } else {
        let tail = lens.drop_first();
        let next = DownloadDataView { downloaded: (data.downloaded + lens[0]) as u64, ..data };
        lemma_chunks_unfold(lens, rest);
        let outcomes = seq![Outcome::Chunk(lens[0])] + (chunks(tail) + rest);
        assert(outcomes[0] == Outcome::Chunk(lens[0]));
        assert(outcomes.drop_first() =~= chunks(tail) + rest);
        lemma_chunks_fit(next, tail, rest);
    }
}

/// The byte counter takes in an attempt whose chunks sum to no more than
/// it can hold, whether the attempt goes well or breaks off, and whatever
/// is reported after its end.
pub proof fn lemma_counter_takes_attempt(
    url: Seq<char>,
    path: Seq<char>,
    total: Option<u64>,
    lens: Seq<u64>,
    fault: Fault,
    rest: Seq<Outcome>,
)
    requires
        total_len(lens) <= u64::MAX,
    ensures
        fits_along(StateView::Start(url, path), success(total, lens) + rest),
        fits_along(StateView::Start(url, path), broken(total, lens, fault) + rest),
{
    let begin = StateView::Start(url, path);
    let opened = DownloadDataView { total, downloaded: 0, path: part_path_of(path) };
    let filled = StateView::Downloading(
        DownloadDataView { downloaded: total_len(lens) as u64, ..opened },
    );

    let failure = seq![Outcome::Failed(fault)] + rest;
    assert(failure[0] == Outcome::Failed(fault));
    assert(fits_along(StateView::Errored, failure.drop_first())) by {
        let after = failure.drop_first();
        if after.len() > 0 {
            assert(step(StateView::Errored, after[0]) is None);
        }
    }
    assert(fits_along(filled, failure));
    lemma_chunks_fit(opened, lens, failure);
    let breaking = seq![Outcome::Opened(total)] + (chunks(lens) + failure);
    assert(breaking[0] == Outcome::Opened(total));
    assert(breaking.drop_first() =~= chunks(lens) + failure);
    assert(broken(total, lens, fault) + rest =~= breaking);

    let end = seq![Outcome::EndOfData, Outcome::Renamed] + rest;
    let complete = StateView::Finished(part_path_of(path));
    assert(end[0] == Outcome::EndOfData);
    assert(end.drop_first()[0] == Outcome::Renamed);
    assert(fits_along(complete, end.drop_first()));
    assert(fits_along(filled, end));
    lemma_chunks_fit(opened, lens, end);
    let succeeding = seq![Outcome::Opened(total)] + (chunks(lens) + end);
    assert(succeeding[0] == Outcome::Opened(total));
    assert(succeeding.drop_first() =~= chunks(lens) + end);
    assert(success(total, lens) + rest =~= succeeding);
}

/// An attempt whose first step fails publishes that one error and nothing
/// else, whatever is reported afterwards: there is no `Started`, and no
/// further work is asked for. A failure of the transport is reported as a
/// download error.
pub proof fn lemma_failure_before_start(
    url: Seq<char>,
    path: Seq<char>,
    fault: Fault,
    rest: Seq<Outcome>,
)
    ensures
        events(StateView::Start(url, path), seq![Outcome::Failed(fault)] + rest) == seq![
            Progress::Error(Error::of(fault)),
        ],
        fault.is_transport() ==> Error::of(fault) == Error::Download,
        state_after(StateView::Start(url, path), seq![Outcome::Failed(fault)]) == Some(
            StateView::Errored,
        ),
        request_of(StateView::Errored) == RequestView::Nothing,
{
    let begin = StateView::Start(url, path);
    lemma_one_outcome(begin, Outcome::Failed(fault), rest);
    lemma_never_live_again(rest);
    assert(seq![Progress::Error(Error::of(fault))] + events(StateView::Errored, rest) =~= seq![
        Progress::Error(Error::of(fault)),
    ]);
    assert(seq![Outcome::Failed(fault)] =~= seq![Outcome::Failed(fault)] + Seq::<
        Outcome,
    >::empty());
    lemma_one_outcome(begin, Outcome::Failed(fault), Seq::empty());
}

/// An attempt that breaks off after `Started` publishes the progress of the
/// chunks that were written and then the error, which is its last event
/// whatever is reported afterwards. At the failure the counter holds the sum
/// of the lengths of those chunks, which lie in the temporary file.
pub proof fn lemma_failure_mid_transfer(
    url: Seq<char>,
    path: Seq<char>,
    total: Option<u64>,
    lens: Seq<u64>,
    fault: Fault,
    rest: Seq<Outcome>,
)
    requires
        total_len(lens) <= u64::MAX,
    ensures
        ({
            let begin = StateView::Start(url, path);
            let seen = events(begin, broken(total, lens, fault) + rest);
            &&& seen == seq![Progress::Started] + advances(0, total, lens) + seq![
                Progress::Error(Error::of(fault)),
            ]
            &&& seen.last() == Progress::Error(Error::of(fault))
            &&& state_after(begin, seq![Outcome::Opened(total)] + chunks(lens)) == Some(
                StateView::Downloading(
                    DownloadDataView {
                        total,
                        downloaded: total_len(lens) as u64,
                        path: part_path_of(path),
                    },
                ),
            )
            &&& state_after(begin, broken(total, lens, fault)) == Some(StateView::Errored)
        }),
{
    let begin = StateView::Start(url, path);
    let filled = StateView::Downloading(
        DownloadDataView { total, downloaded: total_len(lens) as u64, path: part_path_of(path) },
    );
    let failure = seq![Outcome::Failed(fault)];
    let body = seq![Outcome::Opened(total)] + chunks(lens);

    lemma_opened_and_filled(url, path, total, lens, failure + rest);
    lemma_opened_and_filled(url, path, total, lens, failure);
    lemma_opened_and_filled(url, path, total, lens, Seq::empty());
    assert(body + Seq::<Outcome>::empty() =~= body);
    assert(broken(total, lens, fault) + rest =~= body + (failure + rest));

    lemma_one_outcome(filled, Outcome::Failed(fault), rest);
    lemma_never_live_again(rest);
    assert(failure =~= failure + Seq::<Outcome>::empty());
    lemma_one_outcome(filled, Outcome::Failed(fault), Seq::empty());
    assert(events(begin, broken(total, lens, fault) + rest) =~= seq![Progress::Started]
        + advances(0, total, lens) + seq![Progress::Error(Error::of(fault))]);
}

/// In a successful attempt the percentages never fall: of two `Advanced`
/// events the later one reports at least as many bytes, of the same total,
/// and so at least as high a percentage.
pub proof fn lemma_percentages_never_fall(
    url: Seq<char>,
    path: Seq<char>,
    total: Option<u64>,
    lens: Seq<u64>,
    i: int,
    j: int,
)
    requires
        total_len(lens) <= u64::MAX,
        0 <= i <= j < events(StateView::Start(url, path), success(total, lens)).len(),
        events(StateView::Start(url, path), success(total, lens))[i] is Advanced,
        events(StateView::Start(url, path), success(total, lens))[j] is Advanced,
    ensures
        ({
            let seen = events(StateView::Start(url, path), success(total, lens));
            &&& seen[i]->total == total
            &&& seen[j]->total == total
            &&& seen[i]->downloaded <= seen[j]->downloaded
            &&& percentage(seen[i]) <= percentage(seen[j])
        }),
{
    let seen = events(StateView::Start(url, path), success(total, lens));
    lemma_successful_attempt(url, path, total, lens);
    lemma_advances_len(0, total, lens);
    let middle = advances(0, total, lens);
    assert(seen[i] == middle[i - 1]);
    assert(seen[j] == middle[j - 1]);
    lemma_advances_at(0, total, lens, i - 1);
    lemma_advances_at(0, total, lens, j - 1);
    lemma_advances_rise(0, total, lens, i - 1, j - 1);
    lemma_percent_rises(seen[i]->downloaded, seen[j]->downloaded, total);
}

/// Where the server sends exactly the bytes that it announced, and there is
/// at least one, the last `Advanced` event of a successful attempt reports
/// 100 percent.
pub proof fn lemma_last_percentage_is_full(
    url: Seq<char>,
    path: Seq<char>,
    total: u64,
    lens: Seq<u64>,
)
    requires
        total_len(lens) == total,
        total > 0,
    ensures
        ({
            let seen = events(StateView::Start(url, path), success(Some(total), lens));
            &&& seen.len() == lens.len() + 2
            &&& lens.len() > 0
            &&& seen[seen.len() - 2] == (Progress::Advanced {
                downloaded: total,
                total: Some(total),
            })
            &&& percentage(seen[seen.len() - 2]) == 100
        }),
{
    lemma_successful_attempt(url, path, Some(total), lens);
    lemma_advances_len(0, Some(total), lens);
    lemma_advances_at(0, Some(total), lens, lens.len() - 1);
    vstd::arithmetic::div_mod::lemma_div_multiples_vanish(100, total as int);
    assert(100 * total == total * 100) by (nonlinear_arith);
}

} // verus!
