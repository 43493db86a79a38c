//! The decisions of one conversion, as a state machine.
//!
//! The caller performs each `Command` (running the transcoder, reading a line
//! of its diagnostic stream, waiting for it to exit), hands back what came of
//! it as an `Outcome`, and forwards the `ProgressEvent`s in order.
use vstd::prelude::*;
use vstd::string::StringExecFns;
use crate::format::{normalize_output, normalized_output, Format};
use crate::probe::{probed_duration, total_from_probe, ProbeError};
use crate::progress::{estimate_progress, line_progress, FULL_PERCENT};

verus! {

/// What the user asked to convert.
pub struct ConversionRequest {
    pub input: String,
    pub output: String,
    pub format: Format,
    /// Metadata; an empty text is left out.
    pub title: String,
    pub artist: String,
    pub description: String,
}

/// A notification for the user interface.
#[derive(Debug, PartialEq)]
pub enum ProgressEvent {
    /// New status text.
    StatusChanged(String),
    /// New progress, in hundredths of a percent (`FULL_PERCENT` is done).
    ProgressChanged(u32),
}

/// What the caller is to do next.
#[derive(Debug, PartialEq)]
pub enum Command {
    /// Run the transcoder with these arguments and capture its diagnostic
    /// output.
    Probe(Vec<String>),
    /// Start the transcoder with these arguments, its diagnostic stream piped
    /// and its standard output discarded.
    Transcode(Vec<String>),
    /// Read the next line of the diagnostic stream.
    ReadLine,
    /// Wait for the transcoder to exit.
    Wait,
    /// Nothing more: the conversion is over.
    Stop,
}

/// What came of a command.
#[derive(Debug, PartialEq)]
pub enum Outcome {
    /// The probe ran; its diagnostic output.
    Probed(Vec<u8>),
    /// The probe could not be run, for this reason.
    ProbeFailed(String),
    /// The transcoder started.
    Spawned,
    /// The transcoder could not be started, for this reason.
    SpawnFailed(String),
    /// A line of the diagnostic stream, without its line ending.
    Line(Vec<u8>),
    /// The diagnostic stream has ended.
    StreamClosed,
    /// The transcoder exited; whether it reported success.
    Exited(bool),
    /// Waiting for the transcoder failed, for this reason.
    WaitFailed(String),
}

/// Where a conversion stands.
pub enum Driver {
    /// The probe runs; these are the arguments of the transcoding run.
    Probing(Vec<String>),
    /// The transcoder is being started; the total duration in microseconds.
    Launching(u64),
    /// The diagnostic stream is being read; the total duration.
    Streaming(u64),
    /// The stream has ended; the exit is awaited.
    Waiting,
    /// The conversion is over.
    Finished,
}

impl Driver {
    /// The total duration carried by a running conversion is positive.
    pub open spec fn wf(&self) -> bool {
        match self {
            Driver::Launching(t) => *t > 0,
            Driver::Streaming(t) => *t > 0,
            _ => true,
        }
    }
}

/// One transition: what to tell the user, then what to do next.
pub struct Step {
    pub events: Vec<ProgressEvent>,
    pub command: Command,
}

/// What an event says.
pub ghost enum EventView {
    Status(Seq<char>),
    Progress(int),
}

/// What a command asks for.
pub ghost enum CommandView {
    Probe(Seq<Seq<char>>),
    Transcode(Seq<Seq<char>>),
    ReadLine,
    Wait,
    Stop,
}

/// What an outcome reports.
pub ghost enum OutcomeView {
    Probed(Seq<u8>),
    ProbeFailed(Seq<char>),
    Spawned,
    SpawnFailed(Seq<char>),
    Line(Seq<u8>),
    StreamClosed,
    Exited(bool),
    WaitFailed(Seq<char>),
}

/// Where a conversion stands, with its total duration in microseconds.
pub ghost enum DriverView {
    Probing(Seq<Seq<char>>),
    Launching(int),
    Streaming(int),
    Waiting,
    Finished,
}

/// The texts and format of a request.
pub ghost struct RequestView {
    pub input: Seq<char>,
    pub output: Seq<char>,
    pub format: Format,
    pub title: Seq<char>,
    pub artist: Seq<char>,
    pub description: Seq<char>,
}

/// A list of texts as character sequences.
pub open spec fn texts_view(v: Seq<String>) -> Seq<Seq<char>> {
    v.map_values(|s: String| s@)
}

impl View for ProgressEvent {
    type V = EventView;

    open spec fn view(&self) -> EventView {
        match self {
            ProgressEvent::StatusChanged(s) => EventView::Status(s@),
            ProgressEvent::ProgressChanged(p) => EventView::Progress(*p as int),
        }
    }
}

impl View for Command {
    type V = CommandView;

    open spec fn view(&self) -> CommandView {
        match self {
            Command::Probe(a) => CommandView::Probe(texts_view(a@)),
            Command::Transcode(a) => CommandView::Transcode(texts_view(a@)),
            Command::ReadLine => CommandView::ReadLine,
            Command::Wait => CommandView::Wait,
            Command::Stop => CommandView::Stop,
        }
    }
}

impl View for Outcome {
    type V = OutcomeView;

    open spec fn view(&self) -> OutcomeView {
        match self {
            Outcome::Probed(b) => OutcomeView::Probed(b@),
            Outcome::ProbeFailed(r) => OutcomeView::ProbeFailed(r@),
            Outcome::Spawned => OutcomeView::Spawned,
            Outcome::SpawnFailed(r) => OutcomeView::SpawnFailed(r@),
            Outcome::Line(l) => OutcomeView::Line(l@),
            Outcome::StreamClosed => OutcomeView::StreamClosed,
            Outcome::Exited(ok) => OutcomeView::Exited(*ok),
            Outcome::WaitFailed(r) => OutcomeView::WaitFailed(r@),
        }
    }
}

impl View for Driver {
    type V = DriverView;

    open spec fn view(&self) -> DriverView {
        match self {
            Driver::Probing(a) => DriverView::Probing(texts_view(a@)),
            Driver::Launching(t) => DriverView::Launching(*t as int),
            Driver::Streaming(t) => DriverView::Streaming(*t as int),
            Driver::Waiting => DriverView::Waiting,
            Driver::Finished => DriverView::Finished,
        }
    }
}

impl View for ConversionRequest {
    type V = RequestView;

    open spec fn view(&self) -> RequestView {
        RequestView {
            input: self.input@,
            output: self.output@,
            format: self.format,
            title: self.title@,
            artist: self.artist@,
            description: self.description@,
        }
    }
}

impl Step {
    /// What the events of this step say, in order.
    pub open spec fn events_view(&self) -> Seq<EventView> {
        self.events@.map_values(|e: ProgressEvent| e@)
    }
}

/// The status for a request without an input or output path.
pub open spec fn missing_path_text() -> Seq<char> {
    "Please specify both input and output files."@
}

/// The status after the transcoder reported success.
pub open spec fn success_text() -> Seq<char> {
    "Conversion successful."@
}

/// The status after the transcoder reported failure.
pub open spec fn failure_text() -> Seq<char> {
    "Conversion failed."@
}

/// The status text for a probe that gave no duration.
pub open spec fn probe_error_text(e: ProbeError) -> Seq<char> {
    match e {
        ProbeError::NoDurationLine => "Failed to retrieve video duration."@,
        ProbeError::NoDurationMarker => "Failed to find duration information."@,
        ProbeError::UnreadableDuration => "Failed to parse video duration."@,
    }
}

/// The status when the probe could not be run.
pub open spec fn probe_launch_text(reason: Seq<char>) -> Seq<char> {
    "Failed to execute ffmpeg for duration: "@ + reason
}

/// The status when the transcoder could not be started.
pub open spec fn spawn_text(reason: Seq<char>) -> Seq<char> {
    "Failed to start ffmpeg: "@ + reason
}

/// The status when waiting for the transcoder failed.
pub open spec fn wait_text(reason: Seq<char>) -> Seq<char> {
    "Failed to wait on ffmpeg: "@ + reason
}

/// The arguments of the probe: the input alone.
pub open spec fn probe_args(input: Seq<char>) -> Seq<Seq<char>> {
    seq!["-i"@, input]
}

/// One `-metadata key=value` pair, or nothing for an empty value.
pub open spec fn metadata_args(key: Seq<char>, value: Seq<char>) -> Seq<Seq<char>> {
    if value.len() == 0 {
        Seq::empty()
    } else {
        seq!["-metadata"@, key + "="@ + value]
    }
}

/// The arguments of the transcoding run: input, output, then the non-empty
/// metadata in the order title, artist, description.
pub open spec fn transcode_args(r: RequestView, output: Seq<char>) -> Seq<Seq<char>> {
    seq!["-i"@, r.input, output] + metadata_args("title"@, r.title) + metadata_args(
        "artist"@,
        r.artist,
    ) + metadata_args("description"@, r.description)
}

/// How a conversion starts: refused when a path is empty, else with the probe.
pub open spec fn start_spec(r: RequestView) -> (DriverView, Seq<EventView>, CommandView) {
    if r.input.len() == 0 || r.output.len() == 0 {
        (DriverView::Finished, seq![EventView::Status(missing_path_text())], CommandView::Stop)
    } else {
        (
            DriverView::Probing(transcode_args(r, normalized_output(r.output, r.format))),
            Seq::empty(),
            CommandView::Probe(probe_args(r.input)),
        )
    }
}

/// The outcomes that a state waits for; once finished, any outcome is
/// ignored.
pub open spec fn expects(s: DriverView, o: OutcomeView) -> bool {
    match s {
        DriverView::Probing(_) => o is Probed || o is ProbeFailed,
        DriverView::Launching(_) => o is Spawned || o is SpawnFailed,
        DriverView::Streaming(_) => o is Line || o is StreamClosed,
        DriverView::Waiting => o is Exited || o is WaitFailed,
        DriverView::Finished => true,
    }
}

/// Finishing with one status text.
pub open spec fn finish_with(text: Seq<char>) -> (DriverView, Seq<EventView>, CommandView) {
    (DriverView::Finished, seq![EventView::Status(text)], CommandView::Stop)
}

/// One transition of a conversion.
pub open spec fn next_spec(s: DriverView, o: OutcomeView) -> (DriverView, Seq<EventView>, CommandView) {
    match (s, o) {
        (DriverView::Probing(args), OutcomeView::Probed(out)) => match probed_duration(out) {
            Ok(total) => (DriverView::Launching(total), Seq::empty(), CommandView::Transcode(args)),
            Err(e) => finish_with(probe_error_text(e)),
        },
        (DriverView::Probing(_), OutcomeView::ProbeFailed(r)) => finish_with(probe_launch_text(r)),
        (DriverView::Launching(t), OutcomeView::Spawned) => (
            DriverView::Streaming(t),
            Seq::empty(),
            CommandView::ReadLine,
        ),
        (DriverView::Launching(_), OutcomeView::SpawnFailed(r)) => finish_with(spawn_text(r)),
        (DriverView::Streaming(t), OutcomeView::Line(l)) => (
            DriverView::Streaming(t),
            match line_progress(l, t) {
                Some(p) => seq![EventView::Progress(p)],
                None => Seq::empty(),
            },
            CommandView::ReadLine,
        ),
        (DriverView::Streaming(_), OutcomeView::StreamClosed) => (
            DriverView::Waiting,
            Seq::empty(),
            CommandView::Wait,
        ),
        (DriverView::Waiting, OutcomeView::Exited(true)) => (
            DriverView::Finished,
            seq![EventView::Status(success_text()), EventView::Progress(10_000)],
            CommandView::Stop,
        ),
        (DriverView::Waiting, OutcomeView::Exited(false)) => finish_with(failure_text()),
        (DriverView::Waiting, OutcomeView::WaitFailed(r)) => finish_with(wait_text(r)),
        _ => (DriverView::Finished, Seq::empty(), CommandView::Stop),
    }
}

fn text(s: &str) -> (r: String)
    ensures
        r@ == s@,
{
    String::from_str(s)
}

fn joined(prefix: &str, rest: &str) -> (r: String)
    ensures
        r@ == prefix@ + rest@,
{
    let mut r: String = String::from_str(prefix);
    r.append(rest);
    r
}

fn push_metadata(args: &mut Vec<String>, key: &str, value: &String)
    ensures
        texts_view(final(args)@) == texts_view(old(args)@) + metadata_args(key@, value@),
{
    if value.unicode_len() == 0 {
        assert(texts_view(final(args)@) =~= texts_view(old(args)@) + metadata_args(key@, value@));
        return;
    }
    let ghost before = texts_view(args@);
    args.push(text("-metadata"));
    let mut pair: String = joined(key, "=");
    pair.append(value.as_str());
    args.push(pair);
    assert(texts_view(args@) =~= before + metadata_args(key@, value@));
}

fn status(s: String) -> (r: Vec<ProgressEvent>)
    ensures
        r@.map_values(|e: ProgressEvent| e@) == seq![EventView::Status(s@)],
{
    let r: Vec<ProgressEvent> = vec![ProgressEvent::StatusChanged(s)];
    assert(r@.map_values(|e: ProgressEvent| e@) =~= seq![EventView::Status(s@)]);
    r
}

fn no_events() -> (r: Vec<ProgressEvent>)
    ensures
        r@.map_values(|e: ProgressEvent| e@) == Seq::<EventView>::empty(),
{
    let r: Vec<ProgressEvent> = Vec::new();
    assert(r@.map_values(|e: ProgressEvent| e@) =~= Seq::<EventView>::empty());
    r
}

impl Driver {
    /// Starts a conversion: refuses it when the input or output path is empty,
    /// otherwise fixes the output's extension and asks for the probe.
    pub fn start(req: &ConversionRequest) -> (r: (Driver, Step))
        ensures
            (r.0@, r.1.events_view(), r.1.command@) == start_spec(req@),
            r.0.wf(),
    {
        if req.input.unicode_len() == 0 || req.output.unicode_len() == 0 {
            let events: Vec<ProgressEvent> = status(text(
                "Please specify both input and output files.",
            ));
            return (Driver::Finished, Step { events, command: Command::Stop });
        }
        let output: String = normalize_output(req.output.as_str(), req.format);
        let mut args: Vec<String> = Vec::new();
        args.push(text("-i"));
        args.push(req.input.clone());
        args.push(output);
        assert(texts_view(args@) =~= seq!["-i"@, req.input@, normalized_output(req.output@, req.format)]);
        push_metadata(&mut args, "title", &req.title);
        push_metadata(&mut args, "artist", &req.artist);
        push_metadata(&mut args, "description", &req.description);
        let mut probe: Vec<String> = Vec::new();
        probe.push(text("-i"));
        probe.push(req.input.clone());
        assert(texts_view(probe@) =~= probe_args(req.input@));
        (Driver::Probing(args), Step { events: no_events(), command: Command::Probe(probe) })
    }

    /// Whether this state waits for `outcome` (a finished conversion takes
    /// any and ignores it).
    pub fn accepts(&self, outcome: &Outcome) -> (r: bool)
        ensures
            r == expects(self@, outcome@),
    {
        match self {
            Driver::Probing(_) => matches!(outcome, Outcome::Probed(_) | Outcome::ProbeFailed(_)),
            Driver::Launching(_) => matches!(outcome, Outcome::Spawned | Outcome::SpawnFailed(_)),
            Driver::Streaming(_) => matches!(outcome, Outcome::Line(_) | Outcome::StreamClosed),
            Driver::Waiting => matches!(outcome, Outcome::Exited(_) | Outcome::WaitFailed(_)),
            Driver::Finished => true,
        }
    }

    /// Takes in what came of the last command.
    pub fn advance(self, outcome: Outcome) -> (r: (Driver, Step))
        requires
            self.wf(),
            expects(self@, outcome@),
        ensures
            (r.0@, r.1.events_view(), r.1.command@) == next_spec(self@, outcome@),
            r.0.wf(),
    {
        match self {
            Driver::Probing(args) => match outcome {
                Outcome::Probed(out) => match total_from_probe(out.as_slice()) {
                    Ok(total) => (
                        Driver::Launching(total),
                        Step { events: no_events(), command: Command::Transcode(args) },
                    ),
                    Err(e) => (
                        Driver::Finished,
                        Step { events: status(probe_error_status(e)), command: Command::Stop },
                    ),
                },
                Outcome::ProbeFailed(reason) => (
                    Driver::Finished,
                    Step {
                        events: status(joined("Failed to execute ffmpeg for duration: ", reason.as_str())),
                        command: Command::Stop,
                    },
                ),
                _ => (Driver::Finished, Step { events: no_events(), command: Command::Stop }),
            },
            Driver::Launching(total) => match outcome {
                Outcome::Spawned => (
                    Driver::Streaming(total),
                    Step { events: no_events(), command: Command::ReadLine },
                ),
                Outcome::SpawnFailed(reason) => (
                    Driver::Finished,
                    Step {
                        events: status(joined("Failed to start ffmpeg: ", reason.as_str())),
                        command: Command::Stop,
                    },
                ),
                _ => (Driver::Finished, Step { events: no_events(), command: Command::Stop }),
            },
            Driver::Streaming(total) => match outcome {
                Outcome::Line(line) => {
                    let events: Vec<ProgressEvent> = match estimate_progress(line.as_slice(), total) {
                        Some(p) => {
                            let v: Vec<ProgressEvent> = vec![ProgressEvent::ProgressChanged(p)];
                            assert(v@.map_values(|e: ProgressEvent| e@) =~= seq![EventView::Progress(p as int)]);
                            v
                        },
                        None => no_events(),
                    };
                    (Driver::Streaming(total), Step { events, command: Command::ReadLine })
                },
                Outcome::StreamClosed => (
                    Driver::Waiting,
                    Step { events: no_events(), command: Command::Wait },
                ),
                _ => (Driver::Finished, Step { events: no_events(), command: Command::Stop }),
            },
            Driver::Waiting => match outcome {
                Outcome::Exited(ok) => if ok {
                    let events: Vec<ProgressEvent> = vec![
                        ProgressEvent::StatusChanged(text("Conversion successful.")),
                        ProgressEvent::ProgressChanged(FULL_PERCENT),
                    ];
                    assert(events@.map_values(|e: ProgressEvent| e@) =~= seq![
                        EventView::Status(success_text()),
                        EventView::Progress(10_000),
                    ]);
                    (Driver::Finished, Step { events, command: Command::Stop })
                } else {
                    (
                        Driver::Finished,
                        Step { events: status(text("Conversion failed.")), command: Command::Stop },
                    )
                },
                Outcome::WaitFailed(reason) => (
                    Driver::Finished,
                    Step {
                        events: status(joined("Failed to wait on ffmpeg: ", reason.as_str())),
                        command: Command::Stop,
                    },
                ),
                _ => (Driver::Finished, Step { events: no_events(), command: Command::Stop }),
            },
            Driver::Finished => (Driver::Finished, Step { events: no_events(), command: Command::Stop }),
        }
    }
}

/// The status text for a probe that gave no duration.
pub fn probe_error_status(e: ProbeError) -> (r: String)
    ensures
        r@ == probe_error_text(e),
{
    match e {
        ProbeError::NoDurationLine => text("Failed to retrieve video duration."),
        ProbeError::NoDurationMarker => text("Failed to find duration information."),
        ProbeError::UnreadableDuration => text("Failed to parse video duration."),
    }
}

} // verus!

verus! {

/// The state, events and commands after a sequence of outcomes.
pub open spec fn run_spec(s: DriverView, os: Seq<OutcomeView>) -> (
    DriverView,
    Seq<EventView>,
    Seq<CommandView>,
)
    decreases os.len(),
{
    if os.len() == 0 {
        (s, Seq::empty(), Seq::empty())
    } else {
        let (s1, e1, c1) = next_spec(s, os[0]);
        let (s2, e2, c2) = run_spec(s1, os.skip(1));
        (s2, e1 + e2, seq![c1] + c2)
    }
}

/// A finished conversion stays finished: whatever comes after, it emits no
/// event and asks for nothing but to stop.
pub proof fn lemma_finished_is_terminal(os: Seq<OutcomeView>)
    ensures
        run_spec(DriverView::Finished, os).0 == DriverView::Finished,
        run_spec(DriverView::Finished, os).1 == Seq::<EventView>::empty(),
        run_spec(DriverView::Finished, os).2.len() == os.len(),
        forall|i: int|
            0 <= i < os.len() ==> #[trigger] run_spec(DriverView::Finished, os).2[i]
                == CommandView::Stop,
    decreases os.len(),
{
    if os.len() > 0 {
        lemma_finished_is_terminal(os.skip(1));
        let c2 = run_spec(DriverView::Finished, os.skip(1)).2;
        assert(run_spec(DriverView::Finished, os).2 == seq![CommandView::Stop] + c2);
        assert forall|i: int| 0 <= i < os.len() implies #[trigger] run_spec(
            DriverView::Finished,
            os,
        ).2[i] == CommandView::Stop by {
            if i > 0 {
                assert(c2[i - 1] == CommandView::Stop);
            }
        }
    }
}

/// A request with an empty input or output path gets exactly one event, the
/// status asking for both files, and no process is ever started for it,
/// whatever outcomes are handed in afterwards.
pub proof fn lemma_missing_path_starts_nothing(r: RequestView, os: Seq<OutcomeView>)
    requires
        r.input.len() == 0 || r.output.len() == 0,
    ensures
        start_spec(r).1 == seq![EventView::Status(missing_path_text())],
        start_spec(r).2 == CommandView::Stop,
        run_spec(start_spec(r).0, os).1 == Seq::<EventView>::empty(),
        forall|i: int|
            0 <= i < os.len() ==> #[trigger] run_spec(start_spec(r).0, os).2[i]
                == CommandView::Stop,
{
    lemma_finished_is_terminal(os);
}

/// A conversion never ends silently: a transition that finishes a running
/// conversion emits a status text first.
pub proof fn lemma_finish_reports_status(s: DriverView, o: OutcomeView)
    requires
        s != DriverView::Finished,
        expects(s, o),
        next_spec(s, o).0 == DriverView::Finished,
    ensures
        next_spec(s, o).1.len() >= 1,
        next_spec(s, o).1[0] is Status,
        next_spec(s, o).2 == CommandView::Stop,
{
}

} // verus!
