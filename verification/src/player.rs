//! The player's decisions: what a request asks mpv to do, what each mpv
//! event does to the player's state, and what is answered.

use crate::comms::{
    request_action, request_units, status_code, Action, Request, Response, ResponseView, Status,
    Units,
};
use crate::mpvcast;
use vstd::prelude::*;

verus! {

/// Where the player stands.
#[derive(Clone, Copy, Debug, PartialEq, Eq, Structural)]
pub enum PlayerState {
    Unknown,
    Idle,
    Loaded,
    Playing,
    Paused,
    Seeking,
    Exiting,
}

/// The player's state and volume, as mathematics sees them.
pub struct PlayerStatus {
    pub state: PlayerState,
    pub volume: i64,
}

/// The player's state and the volume it last set.
#[derive(Debug)]
pub struct MpvPlayerState {
    state: PlayerState,
    volume: i64,
}

impl View for MpvPlayerState {
    type V = PlayerStatus;

    closed spec fn view(&self) -> PlayerStatus {
        PlayerStatus { state: self.state, volume: self.volume }
    }
}

impl MpvPlayerState {
    /// A player that has loaded nothing: idle, volume 0.
    pub fn new() -> (s: MpvPlayerState)
        ensures
            s@ == (PlayerStatus { state: PlayerState::Idle, volume: 0 }),
    {
        MpvPlayerState { state: PlayerState::Idle, volume: 0 }
    }

    /// Where the player stands.
    pub fn player_state(&self) -> (s: PlayerState)
        ensures
            s == self@.state,
    {
        self.state
    }

    /// The volume last set.
    pub fn volume(&self) -> (v: i64)
        ensures
            v == self@.volume,
    {
        self.volume
    }

    /// Moves the player to `new_state`; says whether that is a change.
    pub fn set_player_state(&mut self, new_state: PlayerState) -> (changed: bool)
        ensures
            final(self)@ == (PlayerStatus { state: new_state, volume: old(self)@.volume }),
            changed == (old(self)@.state != new_state),
    {
        let changed = self.state != new_state;
        self.state = new_state;
        changed
    }

    /// Records the volume that mpv was set to.
    pub fn set_volume(&mut self, volume: i64)
        ensures
            final(self)@ == (PlayerStatus { state: old(self)@.state, volume }),
    {
        self.volume = volume;
    }
}

/// mpv properties that the player sets or watches.
#[derive(Clone, Copy, Debug, PartialEq, Eq, Structural)]
pub enum MpvProperty {
    Volume,
    DemuxerCacheState,
}

/// mpv's name of each property.
pub open spec fn property_name(p: MpvProperty) -> Seq<char> {
    match p {
        MpvProperty::Volume => "volume"@,
        MpvProperty::DemuxerCacheState => "demuxer-cache-state"@,
    }
}

impl MpvProperty {
    /// mpv's name of the property.
    pub fn name(self) -> (n: &'static str)
        ensures
            n@ == property_name(self),
    {
        match self {
            MpvProperty::Volume => "volume",
            MpvProperty::DemuxerCacheState => "demuxer-cache-state",
        }
    }

    /// The number with which mpv reports changes of the property.
    pub fn reply_id(self) -> (id: u64)
        ensures
            id == (match self {
                MpvProperty::Volume => 0u64,
                MpvProperty::DemuxerCacheState => 1u64,
            }),
    {
        match self {
            MpvProperty::Volume => 0,
            MpvProperty::DemuxerCacheState => 1,
        }
    }
}

/// What a request asks mpv to do.
#[derive(Clone, Copy, Debug, PartialEq, Eq, Structural)]
pub enum Command {
    /// Look at the path the request names.
    Browse,
    /// Play the file or URL the request names.
    Load,
    /// Drop the current file.
    Stop,
    /// Pause.
    Pause,
    /// Go on playing.
    Play,
    /// Set the volume.
    SetVolume(i64),
    /// Seek by `secs` seconds, backwards when `rewind`.
    Seek { secs: u64, rewind: bool },
    /// Nothing to do; the request succeeds as it is.
    Nothing,
}

/// How far and which way a seek request goes: the size of the amount in
/// seconds and whether it is negative; nothing without a unit.
pub open spec fn seek_of(units: Units, amount: i64) -> (u64, bool) {
    match units {
        Units::Seconds => ((if amount < 0 {
            -amount
        } else {
            amount as int
        }) as u64, amount < 0),
        Units::NoUnit => (0, false),
    }
}

/// What a seek request asks: a seek when it goes anywhere, nothing otherwise.
pub open spec fn seek_command(units: Units, amount: i64) -> Command {
    if seek_of(units, amount).0 != 0 {
        Command::Seek { secs: seek_of(units, amount).0, rewind: seek_of(units, amount).1 }
    } else {
        Command::Nothing
    }
}

/// A seek goes only with a unit and a non-zero amount; it goes as many
/// seconds as the amount's size, backwards exactly when the amount is
/// negative. Without a unit, or by zero, the request asks nothing.
pub proof fn lemma_seek_command(units: Units, amount: i64)
    requires
        seek_amount_ok(units, amount),
    ensures
        seek_command(units, amount) matches Command::Seek { secs, rewind } ==> units
            == Units::Seconds && amount != 0 && secs as int == (if amount < 0 {
            -amount
        } else {
            amount as int
        }) && rewind == (amount < 0),
        (units == Units::NoUnit || amount == 0) ==> seek_command(units, amount) == Command::Nothing,
{
}

/// Every seek in seconds by a non-zero amount is planned as a seek, by the
/// amount's size and backwards exactly when the amount is negative, for the
/// server and for the stand-alone player alike; a seek by zero asks nothing.
pub proof fn lemma_seek_in_seconds_is_planned(amount: i64)
    requires
        amount != i64::MIN,
    ensures
        amount > 0 ==> server_command(Action::Seek, Units::Seconds, amount) == (Command::Seek {
            secs: amount as u64,
            rewind: false,
        }),
        amount < 0 ==> server_command(Action::Seek, Units::Seconds, amount) == (Command::Seek {
            secs: (-amount) as u64,
            rewind: true,
        }),
        amount == 0 ==> server_command(Action::Seek, Units::Seconds, amount) == Command::Nothing,
        player_command(mpvcast::Action::Seek, Units::Seconds, amount) == server_command(
            Action::Seek,
            Units::Seconds,
            amount,
        ),
        server_command(Action::Seek, Units::NoUnit, amount) == Command::Nothing,
{
}

/// Whether a seek in seconds by this amount can be taken: its size must fit,
/// which leaves out the smallest `i64`.
pub open spec fn seek_amount_ok(units: Units, amount: i64) -> bool {
    units == Units::Seconds ==> amount != i64::MIN
}

/// How far and which way to seek.
fn plan_seek(units: Units, amount: i64) -> (c: Command)
    requires
        seek_amount_ok(units, amount),
    ensures
        c == seek_command(units, amount),
{
    let (secs, rewind) = match units {
        Units::Seconds => {
            let size: i64 = if amount < 0 {
                -amount
            } else {
                amount
            };
            (size as u64, amount < 0)
        },
        Units::NoUnit => (0u64, false),
    };
    if secs != 0 {
        Command::Seek { secs, rewind }
    } else {
        Command::Nothing
    }
}

/// The amount a request carries, 0 when it carries none.
pub open spec fn amount_or_zero(amount: Option<i64>) -> i64 {
    match amount {
        Some(a) => a,
        None => 0,
    }
}

/// What a server request asks mpv to do.
pub open spec fn server_command(action: Action, units: Units, amount: i64) -> Command {
    match action {
        Action::Browse => Command::Browse,
        Action::Load => Command::Load,
        Action::Stop => Command::Stop,
        Action::Pause => Command::Pause,
        Action::Start => Command::Play,
        Action::Volume => Command::SetVolume(amount),
        Action::Seek => seek_command(units, amount),
    }
}

/// What a request to the server asks mpv to do. A seek in seconds needs an
/// amount whose size fits in `i64`.
pub fn plan_request(request: &Request) -> (c: Command)
    requires
        request_action(request.action) == Action::Seek ==> seek_amount_ok(
            request_units(request.unit),
            amount_or_zero(request.amount),
        ),
    ensures
        c == server_command(
            request_action(request.action),
            request_units(request.unit),
            amount_or_zero(request.amount),
        ),
{
    match request.action() {
        Action::Browse => Command::Browse,
        Action::Load => Command::Load,
        Action::Stop => Command::Stop,
        Action::Pause => Command::Pause,
        Action::Start => Command::Play,
        Action::Volume => Command::SetVolume(request.amount()),
        Action::Seek => plan_seek(request.unit(), request.amount()),
    }
}

/// What a stand-alone player request asks mpv to do.
pub open spec fn player_command(action: mpvcast::Action, units: Units, amount: i64) -> Command {
    match action {
        mpvcast::Action::Load => Command::Load,
        mpvcast::Action::Stop => Command::Stop,
        mpvcast::Action::Pause => Command::Pause,
        mpvcast::Action::Start => Command::Play,
        mpvcast::Action::Volume => Command::SetVolume(amount),
        mpvcast::Action::Seek => seek_command(units, amount),
    }
}

/// Each request that is no seek asks mpv for what it names, the same for the
/// server and the stand-alone player: browsing, loading, stopping, pausing,
/// playing, and setting the volume to the request's amount.
pub proof fn lemma_requests_planned(units: Units, amount: i64)
    ensures
        server_command(Action::Browse, units, amount) == Command::Browse,
        server_command(Action::Load, units, amount) == Command::Load,
        server_command(Action::Stop, units, amount) == Command::Stop,
        server_command(Action::Pause, units, amount) == Command::Pause,
        server_command(Action::Start, units, amount) == Command::Play,
        server_command(Action::Volume, units, amount) == Command::SetVolume(amount),
        player_command(mpvcast::Action::Load, units, amount) == Command::Load,
        player_command(mpvcast::Action::Stop, units, amount) == Command::Stop,
        player_command(mpvcast::Action::Pause, units, amount) == Command::Pause,
        player_command(mpvcast::Action::Start, units, amount) == Command::Play,
        player_command(mpvcast::Action::Volume, units, amount) == Command::SetVolume(amount),
{
}

/// What a request to the stand-alone player asks mpv to do. A seek in
/// seconds needs an amount whose size fits in `i64`.
pub fn plan_command(request: &mpvcast::Request) -> (c: Command)
    requires
        mpvcast::command_action(request.action) == mpvcast::Action::Seek ==> seek_amount_ok(
            request_units(request.unit),
            amount_or_zero(request.amount),
        ),
    ensures
        c == player_command(
            mpvcast::command_action(request.action),
            request_units(request.unit),
            amount_or_zero(request.amount),
        ),
{
    match request.action() {
        mpvcast::Action::Load => Command::Load,
        mpvcast::Action::Stop => Command::Stop,
        mpvcast::Action::Pause => Command::Pause,
        mpvcast::Action::Start => Command::Play,
        mpvcast::Action::Volume => Command::SetVolume(request.amount()),
        mpvcast::Action::Seek => plan_seek(request.unit(), request.amount()),
    }
}

/// The answer to a request once mpv has done it, or failed with `outcome`'s
/// message.
pub fn respond(request: &Request, outcome: Result<(), String>) -> (r: Response)
    ensures
        r@ == (match outcome {
            Ok(_) => ResponseView {
                request_id: request.id,
                status: status_code(Status::Success),
                payload: Seq::empty(),
            },
            Err(m) => ResponseView {
                request_id: request.id,
                status: status_code(Status::Error),
                payload: seq![m@],
            },
        }),
{
    match outcome {
        Ok(_) => Response::success(request),
        Err(message) => Response::error(request, message),
    }
}

/// Sets the volume a server request asks for once mpv has taken it, or
/// answers with mpv's error: the state changes only on success.
pub fn finish_set_volume(state: &mut MpvPlayerState, request: &Request, volume: i64, outcome: Result<(), String>) -> (r: Response)
    ensures
        final(state)@ == (match outcome {
            Ok(_) => PlayerStatus { state: old(state)@.state, volume },
            Err(_) => old(state)@,
        }),
        r@ == (match outcome {
            Ok(_) => ResponseView {
                request_id: request.id,
                status: status_code(Status::Success),
                payload: Seq::empty(),
            },
            Err(m) => ResponseView {
                request_id: request.id,
                status: status_code(Status::Error),
                payload: seq![m@],
            },
        }),
{
    match outcome {
        Ok(_) => {
            state.set_volume(volume);
            Response::success(request)
        },
        Err(message) => Response::error(request, message),
    }
}

/// The message of a failure to set `property`: `detail` says what mpv
/// reported.
pub open spec fn property_error_text(property: MpvProperty, detail: Seq<char>) -> Seq<char> {
    "Unable to set property '"@ + property_name(property) + "': "@ + detail
}

/// The message of a failure to set `property`.
pub fn property_error(property: MpvProperty, detail: &str) -> (m: String)
    ensures
        m@ == property_error_text(property, detail@),
{
    let mut m = "Unable to set property '".to_owned();
    m.append(property.name());
    m.append("': ");
    m.append(detail);
    m
}

/// The steps of loading a file into mpv, each of which can fail.
#[derive(Clone, Copy, Debug, PartialEq, Eq, Structural)]
pub enum LoadStep {
    ClearPlaylist,
    LoadFiles,
    DisableDeprecatedEvents,
    ObserveVolume,
    ObserveCacheState,
}

/// What failing each step of loading says.
pub open spec fn load_step_text(step: LoadStep, path: Seq<char>) -> Seq<char> {
    match step {
        LoadStep::ClearPlaylist => "Unable to clear playlist"@,
        LoadStep::LoadFiles => "Unable to load files from "@ + path,
        LoadStep::DisableDeprecatedEvents => "Unable to disable deprecated events"@,
        LoadStep::ObserveVolume => "Unable to bind volume in mpv event context"@,
        LoadStep::ObserveCacheState => "Unable to bind demuxer cache state in mpv event context"@,
    }
}

/// The message of a failed step of loading `path`; mpv's report follows
/// after a colon when there is one and the step carries it.
pub open spec fn load_error_text(step: LoadStep, path: Seq<char>, detail: Option<Seq<char>>) -> Seq<char> {
    match detail {
        Some(d) => if step == LoadStep::LoadFiles {
            load_step_text(step, path)
        } else {
            load_step_text(step, path) + ": "@ + d
        },
        None => load_step_text(step, path),
    }
}

/// The message of a failed step of loading `path`.
pub fn load_error(step: LoadStep, path: &str, detail: Option<&str>) -> (m: String)
    ensures
        m@ == load_error_text(
            step,
            path@,
            match detail {
                Some(d) => Some(d@),
                None => None,
            },
        ),
{
    let mut m = match step {
        LoadStep::ClearPlaylist => "Unable to clear playlist".to_owned(),
        LoadStep::LoadFiles => {
            let mut s = "Unable to load files from ".to_owned();
            s.append(path);
            s
        },
        LoadStep::DisableDeprecatedEvents => "Unable to disable deprecated events".to_owned(),
        LoadStep::ObserveVolume => "Unable to bind volume in mpv event context".to_owned(),
        LoadStep::ObserveCacheState => "Unable to bind demuxer cache state in mpv event context".to_owned(),
    };
    match detail {
        Some(d) => {
            if step != LoadStep::LoadFiles {
                m.append(": ");
                m.append(d);
            }
        },
        None => {},
    }
    m
}

/// An event that mpv reports while a file plays.
#[derive(Debug)]
pub enum PlayerEvent {
    /// The file ended.
    EndFile,
    /// A watched property changed; `node` when its new value is a node.
    PropertyChange { name: String, node: bool },
    /// mpv is shutting down.
    Shutdown,
    /// The file is loaded.
    FileLoaded,
    /// Playback of the file starts.
    StartFile,
    /// A seek began.
    Seek,
    /// Playback restarted after a seek or a load.
    PlaybackRestart,
    /// Any other event.
    Other,
    /// mpv reported an error instead of an event.
    Failed,
}

/// What the player reports about an event.
#[derive(Clone, Copy, Debug, PartialEq, Eq, Structural)]
pub enum EventNote {
    /// The stream ended; the player went to the state given.
    StreamEnded,
    /// The volume changed.
    VolumeChanged,
    /// The seekable ranges may have changed.
    SeekableRanges,
    /// mpv is exiting.
    ShuttingDown,
    /// The state changed as the event says.
    StateChanged,
    /// An event with nothing to do.
    Triggered,
    /// An event that failed.
    Errored,
}

/// What an event does: the state it moves the player to, if any, what is
/// reported, and whether the event loop ends. At the end of a file a daemon
/// waits idle for the next one, a one-shot player exits.
pub open spec fn event_step(event: &PlayerEvent, daemon: bool) -> (Option<PlayerState>, EventNote, bool) {
    match event {
        PlayerEvent::EndFile => (
            Some(
                if daemon {
                    PlayerState::Idle
                } else {
                    PlayerState::Exiting
                },
            ),
            EventNote::StreamEnded,
            true,
        ),
        PlayerEvent::PropertyChange { name, node } => if name@ == property_name(MpvProperty::Volume) {
            (None, EventNote::VolumeChanged, false)
        } else if *node && name@ == property_name(MpvProperty::DemuxerCacheState) {
            (None, EventNote::SeekableRanges, false)
        } else {
            (None, EventNote::Triggered, false)
        },
        PlayerEvent::Shutdown => (Some(PlayerState::Exiting), EventNote::ShuttingDown, true),
        PlayerEvent::FileLoaded => (Some(PlayerState::Loaded), EventNote::StateChanged, false),
        PlayerEvent::StartFile => (Some(PlayerState::Playing), EventNote::StateChanged, false),
        PlayerEvent::Seek => (Some(PlayerState::Seeking), EventNote::StateChanged, false),
        PlayerEvent::PlaybackRestart => (Some(PlayerState::Playing), EventNote::StateChanged, false),
        PlayerEvent::Other => (None, EventNote::Triggered, false),
        PlayerEvent::Failed => (None, EventNote::Errored, false),
    }
}

/// The event loop ends exactly at the end of the file or when mpv shuts
/// down; a shutdown leaves the player exiting, the end of the file leaves a
/// daemon idle and a one-shot player exiting, and property changes, other
/// events and failures leave the state as it was.
pub proof fn lemma_event_loop_ends(event: &PlayerEvent, daemon: bool)
    ensures
        event_step(event, daemon).2 <==> (event is EndFile || event is Shutdown),
        event is Shutdown ==> event_step(event, daemon).0 == Some(PlayerState::Exiting),
        event is EndFile ==> event_step(event, daemon).0 == Some(
            if daemon {
                PlayerState::Idle
            } else {
                PlayerState::Exiting
            },
        ),
        (event is PropertyChange || event is Other || event is Failed) ==> event_step(
            event,
            daemon,
        ).0 is None,
{
}

/// Only the end of a file depends on whether the player is a daemon: every
/// other event moves the player, reports and ends the loop alike for both.
/// A loaded file leaves the player loaded, a started file or a restart after
/// a seek or load leaves it playing, and a seek leaves it seeking; none of
/// these ends the loop.
pub proof fn lemma_event_states(event: &PlayerEvent, daemon: bool)
    ensures
        !(event is EndFile) ==> event_step(event, true) == event_step(event, false),
        event is FileLoaded ==> event_step(event, daemon) == (
            Some(PlayerState::Loaded),
            EventNote::StateChanged,
            false,
        ),
        event is StartFile ==> event_step(event, daemon) == (
            Some(PlayerState::Playing),
            EventNote::StateChanged,
            false,
        ),
        event is Seek ==> event_step(event, daemon) == (
            Some(PlayerState::Seeking),
            EventNote::StateChanged,
            false,
        ),
        event is PlaybackRestart ==> event_step(event, daemon) == (
            Some(PlayerState::Playing),
            EventNote::StateChanged,
            false,
        ),
        event is Shutdown ==> event_step(event, daemon) == (
            Some(PlayerState::Exiting),
            EventNote::ShuttingDown,
            true,
        ),
        event is Other ==> event_step(event, daemon) == (None::<PlayerState>, EventNote::Triggered, false),
        event is Failed ==> event_step(event, daemon) == (None::<PlayerState>, EventNote::Errored, false),
{
}

/// A change of the volume is reported as such whatever its value; a change
/// of the demuxer cache state that carries a node updates the seekable
/// ranges; any other property change is merely reported. None of them
/// moves the player or ends the loop.
pub proof fn lemma_property_events(name: String, node: bool, daemon: bool)
    ensures
        name@ == "volume"@ ==> event_step(&PlayerEvent::PropertyChange { name, node }, daemon) == (
            None::<PlayerState>,
            EventNote::VolumeChanged,
            false,
        ),
        name@ == "demuxer-cache-state"@ && node ==> event_step(
            &PlayerEvent::PropertyChange { name, node },
            daemon,
        ) == (None::<PlayerState>, EventNote::SeekableRanges, false),
        name@ != "volume"@ && (name@ != "demuxer-cache-state"@ || !node) ==> event_step(
            &PlayerEvent::PropertyChange { name, node },
            daemon,
        ) == (None::<PlayerState>, EventNote::Triggered, false),
{
    reveal_strlit("volume");
    reveal_strlit("demuxer-cache-state");
    assert("volume"@.len() != "demuxer-cache-state"@.len());
}

/// What handling an event came to.
#[derive(Clone, Copy, Debug, PartialEq, Eq, Structural)]
pub struct EventOutcome {
    /// What to report.
    pub note: EventNote,
    /// Whether the event loop ends.
    pub stop: bool,
}

/// Handles one event of the loop that watches a playing file: moves the
/// player's state as `event_step` says and tells whether the loop ends.
pub fn handle_event(state: &mut MpvPlayerState, event: &PlayerEvent, daemon: bool) -> (o: EventOutcome)
    ensures
        final(state)@ == (match event_step(event, daemon).0 {
            Some(s) => PlayerStatus { state: s, volume: old(state)@.volume },
            None => old(state)@,
        }),
        o.note == event_step(event, daemon).1,
        o.stop == event_step(event, daemon).2,
{
    match event {
        PlayerEvent::EndFile => {
            if daemon {
                state.set_player_state(PlayerState::Idle);
            } else {
                state.set_player_state(PlayerState::Exiting);
            }
            EventOutcome { note: EventNote::StreamEnded, stop: true }
        },
        PlayerEvent::PropertyChange { name, node } => {
            let volume = MpvProperty::Volume.name().to_owned();
            let cache = MpvProperty::DemuxerCacheState.name().to_owned();
            if *name == volume {
                EventOutcome { note: EventNote::VolumeChanged, stop: false }
            } else if *node && *name == cache {
                EventOutcome { note: EventNote::SeekableRanges, stop: false }
            } else {
                EventOutcome { note: EventNote::Triggered, stop: false }
            }
        },
        PlayerEvent::Shutdown => {
            state.set_player_state(PlayerState::Exiting);
            EventOutcome { note: EventNote::ShuttingDown, stop: true }
        },
        PlayerEvent::FileLoaded => {
            state.set_player_state(PlayerState::Loaded);
            EventOutcome { note: EventNote::StateChanged, stop: false }
        },
        PlayerEvent::StartFile => {
            state.set_player_state(PlayerState::Playing);
            EventOutcome { note: EventNote::StateChanged, stop: false }
        },
        PlayerEvent::Seek => {
            state.set_player_state(PlayerState::Seeking);
            EventOutcome { note: EventNote::StateChanged, stop: false }
        },
        PlayerEvent::PlaybackRestart => {
            state.set_player_state(PlayerState::Playing);
            EventOutcome { note: EventNote::StateChanged, stop: false }
        },
        PlayerEvent::Other => EventOutcome { note: EventNote::Triggered, stop: false },
        PlayerEvent::Failed => EventOutcome { note: EventNote::Errored, stop: false },
    }
}

/// Counts the times the server's listener was restarted.
#[derive(Debug)]
pub struct ListenerRetries {
    attempts: u32,
}

impl View for ListenerRetries {
    type V = nat;

    closed spec fn view(&self) -> nat {
        self.attempts as nat
    }
}

impl ListenerRetries {
    /// No restart yet.
    pub fn new() -> (r: ListenerRetries)
        ensures
            r@ == 0,
    {
        ListenerRetries { attempts: 0 }
    }

    /// The listener accepted a client: the count starts again.
    pub fn connected(&mut self)
        ensures
            final(self)@ == 0,
    {
        self.attempts = 0;
    }

    /// The listener stopped accepting: whether to start it again. After more
    /// than five restarts in a row the server gives up.
    pub fn connection_lost(&mut self) -> (retry: bool)
        ensures
            retry == (old(self)@ <= 5),
            final(self)@ == if retry {
                old(self)@ + 1
            } else {
                old(self)@
            },
    {
        if self.attempts > 5 {
            false
        } else {
            self.attempts = self.attempts + 1;
            true
        }
    }

    /// Restarts so far.
    pub fn attempts(&self) -> (n: u32)
        ensures
            n == self@,
    {
        self.attempts
    }
}

} // verus!
