//! One attempt at a download, as a state machine that is pumped from outside.
//!
//! The machine itself touches neither network nor disk. For each state it
//! names the work to be done ([`State::request`]); whoever drives it does that
//! work and reports how it went ([`Outcome`]); [`stream_state_machine`] then
//! gives the one event to publish and the state to go on from, or `None` when
//! the attempt is over.
use vstd::prelude::*;

use super::paths::final_path;
use super::paths::final_path_of;
use super::paths::part_path;
use super::paths::part_path_of;

verus! {

/// How loudly a failure is to be reported.
#[derive(Clone, Copy, Debug, PartialEq, Eq, Structural)]
pub enum Severity {
    /// Likely to pass: the user can try again.
    Warn,
    /// Something is wrong with the machine the player runs on.
    Error,
}

/// The step of the outside work that failed.
#[derive(Clone, Copy, Debug, PartialEq, Eq, Structural)]
pub enum Fault {
    /// The connection could not be made, or the server refused.
    Connect,
    /// The connection broke while the body was read.
    ReadChunk,
    /// A directory above the destination could not be made.
    CreateDirectory,
    /// The temporary file could not be created.
    CreateFile,
    /// A chunk could not be appended to the temporary file.
    WriteChunk,
    /// The finished file could not be moved into place.
    Rename,
}

impl Fault {
    /// Whether the failure lies with the transport rather than with storage.
    pub open spec fn is_transport(self) -> bool {
        self is Connect || self is ReadChunk
    }
}

/// Why a download failed, as reported to the observer.
#[derive(Clone, Copy, Debug, PartialEq, Eq, Structural)]
pub enum Error {
    /// Problem connecting to the download.
    Download,
    /// The download could not be stored.
    Io,
    /// The destination has no extension, so the file type is unknown.
    NoExtension,
}

impl Error {
    /// The class of a failure: what the transport reports is a download
    /// error, everything that concerns directories and files an io error.
    pub open spec fn of(fault: Fault) -> Error {
        if fault.is_transport() {
            Error::Download
        } else {
            Error::Io
        }
    }

    /// The class of the failure at this step.
    pub fn classify(fault: Fault) -> (error: Error)
        ensures
            error == Error::of(fault),
    {
        match fault {
            Fault::Connect | Fault::ReadChunk => Error::Download,
            Fault::CreateDirectory | Fault::CreateFile | Fault::WriteChunk | Fault::Rename => {
                Error::Io
            },
        }
    }

    /// Only a storage error is reported at the higher severity.
    pub open spec fn severity(self) -> Severity {
        if self is Io {
            Severity::Error
        } else {
            Severity::Warn
        }
    }

    /// How loudly this error is to be reported.
    pub fn level(&self) -> (severity: Severity)
        ensures
            severity == self.severity(),
    {
        match self {
            Error::Download => Severity::Warn,
            Error::Io => Severity::Error,
            Error::NoExtension => Severity::Warn,
        }
    }

    /// The sentence that stands for this error.
    pub open spec fn text(self) -> Seq<char> {
        match self {
            Error::Download => "Problem connecting to download"@,
            Error::Io => "Could not store download"@,
            Error::NoExtension => "Do not know what file type this is (no extension given)"@,
        }
    }

    /// The sentence shown to the user.
    pub fn message(&self) -> (message: String)
        ensures
            message@ == self.text(),
    {
        match self {
            Error::Download => "Problem connecting to download".to_owned(),
            Error::Io => "Could not store download".to_owned(),
            Error::NoExtension => {
                "Do not know what file type this is (no extension given)".to_owned()
            },
        }
    }
}

/// The share of `total` that `downloaded` bytes make up, in whole percent,
/// rounded down; 0 where the total is unknown or zero.
pub open spec fn percent_of(downloaded: u64, total: Option<u64>) -> nat {
    match total {
        Some(t) => if t > 0 {
            (100 * downloaded / (t as int)) as nat
        } else {
            0
        },
        None => 0,
    }
}

/// A larger count of bytes never gives a smaller percentage of one total.
pub proof fn lemma_percent_rises(first: u64, second: u64, total: Option<u64>)
    requires
        first <= second,
    ensures
        percent_of(first, total) <= percent_of(second, total),
{
    if let Some(t) = total {
        if t > 0 {
            vstd::arithmetic::div_mod::lemma_div_is_ordered(100 * first, 100 * second, t as int);
        }
    }
}

/// What an observer is told about a download.
#[derive(Clone, Copy, Debug, PartialEq, Eq)]
pub enum Progress {
    /// The connection stands and the temporary file is open.
    Started,
    /// Another chunk is on disk: the bytes written so far, and the size that
    /// the server announced, if it announced one.
    Advanced { downloaded: u64, total: Option<u64> },
    /// All bytes are on disk.
    Finished,
    /// The attempt has failed.
    Error(Error),
}

impl Progress {
    /// The percentage that an `Advanced` event reports; `None` for the
    /// other events.
    pub fn percent(&self) -> (percent: Option<u128>)
        ensures
            match *self {
                Progress::Advanced { downloaded, total } => percent == Some(
                    percent_of(downloaded, total) as u128,
                ) && percent_of(downloaded, total) <= u128::MAX,
                _ => percent is None,
            },
    {
        match *self {
            Progress::Advanced { downloaded, total } => {
                match total {
                    Some(t) => {
                        if t > 0 {
                            let scaled: u128 = 100u128 * (downloaded as u128);
                            Some(scaled / (t as u128))
                        } else {
                            Some(0)
                        }
                    },
                    None => Some(0),
                }
            },
            _ => None,
        }
    }
}

/// The counters of a transfer that is under way.
#[derive(Debug, Clone, PartialEq, Eq)]
pub struct DownloadData {
    /// The size that the server announced, fixed when the transfer began.
    pub total: Option<u64>,
    /// The bytes written to the temporary file so far.
    pub downloaded: u64,
    /// The temporary file.
    pub path: String,
}

/// The counters of a transfer, with its path as a sequence of characters.
pub struct DownloadDataView {
    pub total: Option<u64>,
    pub downloaded: u64,
    pub path: Seq<char>,
}

impl View for DownloadData {
    type V = DownloadDataView;

    open spec fn view(&self) -> DownloadDataView {
        DownloadDataView { total: self.total, downloaded: self.downloaded, path: self.path@ }
    }
}

/// The state of one attempt.
#[derive(Debug, Clone, PartialEq, Eq)]
pub enum State {
    /// Nothing has happened yet: the url, and the path of the finished file.
    Start(String, String),
    /// The body is being drained into the temporary file.
    Downloading(DownloadData),
    /// All bytes are in the temporary file at this path; it is yet to be
    /// moved into place.
    Finished(String),
    /// The attempt has failed; nothing more will happen.
    Errored,
}

/// A state, with its texts as sequences of characters.
pub enum StateView {
    Start(Seq<char>, Seq<char>),
    Downloading(DownloadDataView),
    Finished(Seq<char>),
    Errored,
}

impl View for State {
    type V = StateView;

    open spec fn view(&self) -> StateView {
        match *self {
            State::Start(url, path) => StateView::Start(url@, path@),
            State::Downloading(data) => StateView::Downloading(data@),
            State::Finished(temp_path) => StateView::Finished(temp_path@),
            State::Errored => StateView::Errored,
        }
    }
}

/// The outside work that a state waits for.
#[derive(Debug, Clone, PartialEq, Eq)]
pub enum Request {
    /// Connect to `url`; then make the directories above `file`, and create
    /// `file` itself.
    Open { url: String, file: String },
    /// Read the next chunk of the body and append it to `file`.
    Transfer { file: String },
    /// Move `from` to `to`.
    Rename { from: String, to: String },
    /// The attempt is over.
    Nothing,
}

/// A request, with its texts as sequences of characters.
pub enum RequestView {
    Open { url: Seq<char>, file: Seq<char> },
    Transfer { file: Seq<char> },
    Rename { from: Seq<char>, to: Seq<char> },
    Nothing,
}

impl View for Request {
    type V = RequestView;

    open spec fn view(&self) -> RequestView {
        match *self {
            Request::Open { url, file } => RequestView::Open { url: url@, file: file@ },
            Request::Transfer { file } => RequestView::Transfer { file: file@ },
            Request::Rename { from, to } => RequestView::Rename { from: from@, to: to@ },
            Request::Nothing => RequestView::Nothing,
        }
    }
}

/// How the work that a state asked for went.
#[derive(Clone, Copy, Debug, PartialEq, Eq)]
pub enum Outcome {
    /// The connection stands and the temporary file is open; the size that
    /// the server announced, if any.
    Opened(Option<u64>),
    /// A chunk of this many bytes was read and appended.
    Chunk(u64),
    /// The body has ended.
    EndOfData,
    /// The file is in its place.
    Renamed,
    /// The work failed at this step.
    Failed(Fault),
}

/// The work that a state waits for. The temporary file is the only file
/// ever written to, and the final path is named by a rename alone.
pub open spec fn request_of(state: StateView) -> RequestView {
    match state {
        StateView::Start(url, path) => RequestView::Open { url, file: part_path_of(path) },
        StateView::Downloading(data) => RequestView::Transfer { file: data.path },
        StateView::Finished(temp_path) => RequestView::Rename {
            from: temp_path,
            to: final_path_of(temp_path),
        },
        StateView::Errored => RequestView::Nothing,
    }
}

/// One step of the machine: the event to publish and the next state, or
/// `None` where there is no event.
///
/// A failure ends the attempt from any live state. A finished download
/// whose rename succeeds ends without a further event. An outcome that the
/// state's request cannot have yields nothing.
pub open spec fn step(state: StateView, outcome: Outcome) -> Option<(Progress, StateView)> {
    match (state, outcome) {
        (StateView::Errored, _) => None,
        (_, Outcome::Failed(fault)) => Some((Progress::Error(Error::of(fault)), StateView::Errored)),
        (StateView::Start(_, path), Outcome::Opened(total)) => Some(
            (
                Progress::Started,
                StateView::Downloading(
                    DownloadDataView { total, downloaded: 0, path: part_path_of(path) },
                ),
            ),
        ),
        (StateView::Downloading(data), Outcome::Chunk(len)) => {
            let downloaded = (data.downloaded + len) as u64;
            Some(
                (
                    Progress::Advanced { downloaded, total: data.total },
                    StateView::Downloading(
                        DownloadDataView { total: data.total, downloaded, path: data.path },
                    ),
                ),
            )
        },
        (StateView::Downloading(data), Outcome::EndOfData) => Some(
            (Progress::Finished, StateView::Finished(data.path)),
        ),
        _ => None,
    }
}

/// Whether the byte counter can take in what `outcome` reports.
pub open spec fn counter_fits(state: StateView, outcome: Outcome) -> bool {
    state matches StateView::Downloading(data) ==> (outcome matches Outcome::Chunk(len)
        ==> data.downloaded + len <= u64::MAX)
}

/// What a step gives: the event and the next state, or nothing.
pub type StateResult = Option<(Progress, State)>;

/// What a step gives, with the state by its view.
pub open spec fn result_view(result: StateResult) -> Option<(Progress, StateView)> {
    match result {
        Some((event, state)) => Some((event, state@)),
        None => None,
    }
}

impl State {
    /// The work that this state waits for.
    pub fn request(&self) -> (request: Request)
        ensures
            request@ == request_of(self@),
    {
        match self {
            State::Start(url, path) => Request::Open {
                url: url.clone(),
                file: part_path(path.as_str()),
            },
            State::Downloading(data) => Request::Transfer { file: data.path.clone() },
            State::Finished(temp_path) => Request::Rename {
                from: temp_path.clone(),
                to: final_path(temp_path.as_str()),
            },
            State::Errored => Request::Nothing,
        }
    }
}

/// The first step: `opened` tells whether the connection was made and the
/// temporary file for `path` created, and the size that the server announced.
pub fn start(path: String, opened: Result<Option<u64>, Fault>) -> (result: Result<
    StateResult,
    Error,
>)
    ensures
        match opened {
            Ok(total) => result matches Ok(Some((event, state))) && event == Progress::Started
                && state@ == StateView::Downloading(
                DownloadDataView { total, downloaded: 0, path: part_path_of(path@) },
            ),
            Err(fault) => result matches Err(error) && error == Error::of(fault),
        },
{
    match opened {
        Ok(total) => {
            let state = DownloadData { total, downloaded: 0, path: part_path(path.as_str()) };
            Ok(Some((Progress::Started, State::Downloading(state))))
        },
        Err(fault) => Err(Error::classify(fault)),
    }
}

/// A step of the transfer: `chunk` holds the length of the chunk that was
/// read and appended, `None` at the end of the body, or the step that failed.
/// The percentage that is reported for a chunk is never below the one that
/// the transfer stood at.
pub fn downloading(data: DownloadData, chunk: Result<Option<u64>, Fault>) -> (result: Result<
    StateResult,
    Error,
>)
    requires
        chunk matches Ok(Some(len)) ==> data.downloaded + len <= u64::MAX,
    ensures
        match chunk {
            Ok(None) => result matches Ok(Some((event, state))) && event == Progress::Finished
                && state@ == StateView::Finished(data.path@),
            Ok(Some(len)) => result matches Ok(Some((event, state))) && event
                == (Progress::Advanced {
                downloaded: (data.downloaded + len) as u64,
                total: data.total,
            }) && state@ == StateView::Downloading(
                DownloadDataView {
                    total: data.total,
                    downloaded: (data.downloaded + len) as u64,
                    path: data.path@,
                },
            ),
            Err(fault) => result matches Err(error) && error == Error::of(fault),
        },
        chunk matches Ok(Some(len)) ==> percent_of((data.downloaded + len) as u64, data.total)
            >= percent_of(data.downloaded, data.total),
{
    proof {
        if let Ok(Some(len)) = chunk {
            lemma_percent_rises(data.downloaded, (data.downloaded + len) as u64, data.total);
        }
    }
    let DownloadData { total, downloaded, path } = data;
    match chunk {
        Err(fault) => Err(Error::classify(fault)),
        Ok(None) => Ok(Some((Progress::Finished, State::Finished(path)))),
        Ok(Some(len)) => {
            let downloaded: u64 = downloaded + len;
            let progress = Progress::Advanced { downloaded, total };
            let data = DownloadData { total, downloaded, path };
            Ok(Some((progress, State::Downloading(data))))
        },
    }
}

/// The event and the state that follow from `current` once the work it
/// asked for has ended as `outcome` says.
pub fn stream_state_machine(current: State, outcome: Outcome) -> (result: StateResult)
    requires
        counter_fits(current@, outcome),
    ensures
        result_view(result) == step(current@, outcome),
{
    let failed = |error: Error| -> (r: StateResult)
        ensures
            r == Some((Progress::Error(error), State::Errored)),
        { Some((Progress::Error(error), State::Errored)) };
    match current {
        State::Start(_, path) => {
            let opened = match outcome {
                Outcome::Opened(total) => Ok(total),
                Outcome::Failed(fault) => Err(fault),
                _ => { return None; },
            };
            match start(path, opened) {
                Ok(next) => next,
                Err(error) => failed(error),
            }
        },
        State::Downloading(data) => {
            let chunk = match outcome {
                Outcome::Chunk(len) => Ok(Some(len)),
                Outcome::EndOfData => Ok(None),
                Outcome::Failed(fault) => Err(fault),
                _ => { return None; },
            };
            match downloading(data, chunk) {
                Ok(next) => next,
                Err(error) => failed(error),
            }
        },
        State::Finished(_) => {
            match outcome {
                Outcome::Failed(fault) => failed(Error::classify(fault)),
                _ => None,
            }
        },
        State::Errored => None,
    }
}

} // verus!
