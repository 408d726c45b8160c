//! The front end's decisions: what each control offers in each state, what
//! a user action asks the server, how requests are numbered and how answers
//! find the request they answer.

use crate::comms::{action_code, units_code, Action, Control, ControlView, Request, Response, Units};
use crate::duration::{duration_secs, from_secs};
use std::collections::HashMap;
use std::time::Duration;
use vstd::prelude::*;

verus! {

broadcast use vstd::std_specs::hash::group_hash_axioms;

/// What the front end knows of the player.
#[derive(Clone, Debug, PartialEq, Eq)]
pub enum UiState {
    Unknown,
    Error(String),
    Idle,
    Playing,
    Paused,
    Loading,
}

/// The playback status that the front end announces over MPRIS.
#[derive(Clone, Copy, Debug, PartialEq, Eq, Structural)]
pub enum PlaybackStatus {
    Playing,
    Paused,
    Stopped,
}

/// Whether playing can be asked in a state.
pub open spec fn may_play(s: UiState) -> bool {
    s is Paused || s is Idle
}

/// Whether pausing can be asked in a state.
pub open spec fn may_pause(s: UiState) -> bool {
    s is Playing
}

/// Whether stopping can be asked in a state.
pub open spec fn may_stop(s: UiState) -> bool {
    s is Playing || s is Paused
}

/// Whether seeking can be asked in a state.
pub open spec fn may_seek(s: UiState) -> bool {
    s is Playing || s is Paused || s is Loading
}

/// Whether the window takes input in a state.
pub open spec fn takes_input(s: UiState) -> bool {
    !(s is Loading || s is Unknown || s is Error)
}

/// The controls agree with each other: playing and pausing are never both
/// offered, whatever can be paused can be stopped, whatever can be stopped
/// can be sought in, and a window that takes no input offers neither
/// playing, pausing nor stopping.
pub proof fn lemma_controls_agree(s: UiState)
    ensures
        !(may_play(s) && may_pause(s)),
        may_pause(s) ==> may_stop(s),
        may_stop(s) ==> may_seek(s),
        !takes_input(s) ==> !may_play(s) && !may_pause(s) && !may_stop(s),
{
}

/// What each state offers: playing offers pausing, stopping and seeking;
/// paused offers playing, stopping and seeking; idle offers playing only;
/// loading offers seeking only and takes no input; an unknown or failed
/// state offers nothing and takes no input.
pub proof fn lemma_controls_per_state(s: UiState)
    ensures
        s is Playing ==> !may_play(s) && may_pause(s) && may_stop(s) && may_seek(s) && takes_input(s),
        s is Paused ==> may_play(s) && !may_pause(s) && may_stop(s) && may_seek(s) && takes_input(s),
        s is Idle ==> may_play(s) && !may_pause(s) && !may_stop(s) && !may_seek(s) && takes_input(s),
        s is Loading ==> !may_play(s) && !may_pause(s) && !may_stop(s) && may_seek(s) && !takes_input(s),
        (s is Unknown || s is Error) ==> !may_play(s) && !may_pause(s) && !may_stop(s) && !may_seek(s)
            && !takes_input(s),
{
}

impl UiState {
    /// The MPRIS status of this state: playing and paused as they are,
    /// stopped otherwise.
    pub fn playback_status(&self) -> (s: PlaybackStatus)
        ensures
            s == (match self {
                UiState::Playing => PlaybackStatus::Playing,
                UiState::Paused => PlaybackStatus::Paused,
                _ => PlaybackStatus::Stopped,
            }),
    {
        match self {
            UiState::Playing => PlaybackStatus::Playing,
            UiState::Paused => PlaybackStatus::Paused,
            _ => PlaybackStatus::Stopped,
        }
    }

    /// Whether playing can be asked: when paused or idle.
    pub fn can_play(&self) -> (r: bool)
        ensures
            r == may_play(*self),
    {
        match self {
            UiState::Paused | UiState::Idle => true,
            UiState::Playing | UiState::Error(_) | UiState::Loading | UiState::Unknown => false,
        }
    }

    /// Whether pausing can be asked: when playing.
    pub fn can_pause(&self) -> (r: bool)
        ensures
            r == may_pause(*self),
    {
        match self {
            UiState::Playing => true,
            _ => false,
        }
    }

    /// Whether stopping can be asked: when playing or paused.
    pub fn can_stop(&self) -> (r: bool)
        ensures
            r == may_stop(*self),
    {
        match self {
            UiState::Playing | UiState::Paused => true,
            _ => false,
        }
    }

    /// Whether seeking can be asked: when playing, paused or loading.
    pub fn can_seek(&self) -> (r: bool)
        ensures
            r == may_seek(*self),
    {
        match self {
            UiState::Playing | UiState::Paused | UiState::Loading => true,
            _ => false,
        }
    }

    /// Whether the window takes input: not while loading, unknown or failed.
    pub fn controls_enabled(&self) -> (r: bool)
        ensures
            r == takes_input(*self),
    {
        match self {
            UiState::Loading | UiState::Unknown | UiState::Error(_) => false,
            _ => true,
        }
    }

    /// The text of the status line: an error's message, otherwise the
    /// state's name.
    pub fn status_text(&self) -> (t: String)
        ensures
            t@ == (match self {
                UiState::Error(e) => e@,
                UiState::Unknown => "Unknown"@,
                UiState::Idle => "Idle"@,
                UiState::Playing => "Playing"@,
                UiState::Paused => "Paused"@,
                UiState::Loading => "Loading"@,
            }),
    {
        match self {
            UiState::Error(e) => e.clone(),
            UiState::Unknown => "Unknown".to_owned(),
            UiState::Idle => "Idle".to_owned(),
            UiState::Playing => "Playing".to_owned(),
            UiState::Paused => "Paused".to_owned(),
            UiState::Loading => "Loading".to_owned(),
        }
    }
}

/// What the user asked for, its numbers already whole: the volume in
/// percent and the seek target in seconds.
#[derive(Clone, Debug, PartialEq, Eq)]
pub enum UiAction {
    Play,
    Pause,
    Stop,
    Load(String),
    Browse(String),
    SetVolume(i64),
    SeekAbsolute(u64),
}

/// The request that a user action sends, numbered `id`. A seek goes without
/// a unit.
pub open spec fn action_request(action: UiAction, id: u32) -> ControlView {
    match action {
        UiAction::Play => ControlView { id, action: action_code(Action::Start), amount: None, path: None, unit: None },
        UiAction::Pause => ControlView { id, action: action_code(Action::Pause), amount: None, path: None, unit: None },
        UiAction::Stop => ControlView { id, action: action_code(Action::Stop), amount: None, path: None, unit: None },
        UiAction::Load(p) => ControlView { id, action: action_code(Action::Load), amount: None, path: Some(p@), unit: None },
        UiAction::Browse(p) => ControlView { id, action: action_code(Action::Browse), amount: None, path: Some(p@), unit: None },
        UiAction::SetVolume(v) => ControlView { id, action: action_code(Action::Volume), amount: Some(v), path: None, unit: None },
        UiAction::SeekAbsolute(s) => ControlView {
            id,
            action: action_code(Action::Seek),
            amount: Some(s as i64),
            path: None,
            unit: Some(units_code(Units::NoUnit)),
        },
    }
}

/// Every request a user action sends carries the number it was given, and
/// asks for what the user did: the action's wire number, the volume or seek
/// target as its amount, the path to load or browse.
pub proof fn lemma_request_numbered(action: UiAction, id: u32)
    ensures
        action_request(action, id).id == id,
        action is Play ==> action_request(action, id).action == 1,
        action is Pause ==> action_request(action, id).action == 2,
        action is Stop ==> action_request(action, id).action == 0,
        action matches UiAction::Load(p) ==> action_request(action, id).action == 5
            && action_request(action, id).path == Some(p@),
        action matches UiAction::Browse(p) ==> action_request(action, id).action == 6
            && action_request(action, id).path == Some(p@),
        action matches UiAction::SetVolume(v) ==> action_request(action, id).action == 4
            && action_request(action, id).amount == Some(v),
        action matches UiAction::SeekAbsolute(t) ==> action_request(action, id).action == 3
            && action_request(action, id).amount == Some(t as i64),
{
}

/// The request that a user action sends, numbered `id`.
pub fn request_for(action: UiAction, id: u32) -> (r: Request)
    ensures
        r@ == action_request(action, id),
{
    match action {
        UiAction::Play => Control::start(id),
        UiAction::Pause => Control::pause(id),
        UiAction::Stop => Control::stop(id),
        UiAction::Load(path) => Control::load(id, path),
        UiAction::Browse(path) => Control::browse(id, path),
        UiAction::SetVolume(volume) => Control::volume(id, volume),
        UiAction::SeekAbsolute(secs) => Control::seek(id, from_secs(secs), Units::NoUnit),
    }
}

/// The first thing the front end asks: to load the source it was given, or
/// else to browse the user's videos.
pub fn initial_action(source: Option<String>) -> (a: UiAction)
    ensures
        match source {
            Some(s) => a == UiAction::Load(s),
            None => a is Browse && a->Browse_0@ == "~/Videos"@,
        },
{
    match source {
        Some(s) => UiAction::Load(s),
        None => UiAction::Browse("~/Videos".to_owned()),
    }
}

/// Hands out request numbers: 0, 1, 2, and on, wrapping after the largest.
#[derive(Debug)]
pub struct RequestIds {
    next: u32,
}

impl View for RequestIds {
    type V = u32;

    closed spec fn view(&self) -> u32 {
        self.next
    }
}

impl RequestIds {
    /// Numbering from 0.
    pub fn new() -> (ids: RequestIds)
        ensures
            ids@ == 0,
    {
        RequestIds { next: 0 }
    }

    /// The next number; the one after it follows, wrapping past the largest.
    pub fn next_request_id(&mut self) -> (id: u32)
        ensures
            id == old(self)@,
            final(self)@ == (if old(self)@ == u32::MAX {
                0
            } else {
                (old(self)@ + 1) as u32
            }),
    {
        let id = self.next;
        self.next = if self.next == u32::MAX {
            0
        } else {
            self.next + 1
        };
        id
    }
}

/// Requests sent and not answered yet, by number.
#[derive(Debug)]
pub struct PendingRequests {
    requests: HashMap<u32, Request>,
}

impl View for PendingRequests {
    type V = Map<u32, Request>;

    closed spec fn view(&self) -> Map<u32, Request> {
        self.requests@
    }
}

impl PendingRequests {
    /// No request waits.
    pub fn new() -> (p: PendingRequests)
        ensures
            p@ == Map::<u32, Request>::empty(),
    {
        PendingRequests { requests: HashMap::new() }
    }

    /// A request was sent: it waits under its number, in place of any
    /// earlier one with that number.
    pub fn insert(&mut self, request: Request)
        ensures
            final(self)@ == old(self)@.insert(request.id, request),
    {
        let id = request.id;
        self.requests.insert(id, request);
    }

    /// An answer came for number `id`: the request that waited under it, if
    /// any, which waits no longer.
    pub fn take(&mut self, id: u32) -> (r: Option<Request>)
        ensures
            r == (if old(self)@.contains_key(id) {
                Some(old(self)@[id])
            } else {
                None
            }),
            final(self)@ == old(self)@.remove(id),
    {
        self.requests.remove(&id)
    }

    /// An answer came: the request it answers, found by the answer's
    /// request number and waiting no longer, paired with the answer; the
    /// answer back, with nothing changed, when no request waits under that
    /// number.
    pub fn match_response(&mut self, response: Response) -> (r: Result<(Request, Response), Response>)
        ensures
            match r {
                Ok((q, a)) => old(self)@.contains_key(response.request_id) && q == old(
                    self,
                )@[response.request_id] && a == response,
                Err(a) => !old(self)@.contains_key(response.request_id) && a == response,
            },
            final(self)@ == old(self)@.remove(response.request_id),
    {
        let id = response.request_id;
        match self.take(id) {
            Some(request) => Ok((request, response)),
            None => Err(response),
        }
    }

    /// How many requests wait.
    pub fn len(&self) -> (n: usize)
        ensures
            n == self@.len(),
    {
        self.requests.len()
    }
}

/// A sent request is found again by an answer that carries its number,
/// whatever else waits, and only once; the other waiting requests stay.
pub proof fn lemma_pending_answer(pending: Map<u32, Request>, request: Request, answer_id: u32)
    requires
        answer_id == request.id,
    ensures
        pending.insert(request.id, request).contains_key(answer_id),
        pending.insert(request.id, request)[answer_id] == request,
        !pending.insert(request.id, request).remove(answer_id).contains_key(answer_id),
        forall|k: u32| k != answer_id && pending.contains_key(k) ==> #[trigger] pending.insert(request.id, request).remove(answer_id).contains_key(k)
            && pending.insert(request.id, request).remove(answer_id)[k] == pending[k],
{
}

/// How long the front end waits before connecting again after `attempts`
/// failures, in seconds: 2 to the power `attempts`, at most 32; the first
/// failure waits 2 seconds.
pub open spec fn retry_delay(attempts: u32) -> u64 {
    if attempts == 0 {
        1
    } else if attempts == 1 {
        2
    } else if attempts == 2 {
        4
    } else if attempts == 3 {
        8
    } else if attempts == 4 {
        16
    } else {
        32
    }
}

/// The back-off never shrinks as failures add up, and never passes 32
/// seconds.
pub proof fn lemma_retry_delay_capped(a: u32, b: u32)
    requires
        a <= b,
    ensures
        1 <= retry_delay(a) <= retry_delay(b) <= 32,
{
}

/// The back-off is `2` to the power of the failures so far: 1 second before
/// any failure, twice as long after each further one, and 32 seconds from
/// the fifth failure on.
pub proof fn lemma_retry_delay_doubles(attempts: u32)
    ensures
        retry_delay(0) == 1,
        attempts < 5 ==> retry_delay((attempts + 1) as u32) == 2 * retry_delay(attempts),
        attempts >= 5 ==> retry_delay(attempts) == 32,
{
}

/// How long to wait before connecting again after `attempts` failures:
/// `2` to the power `attempts`, at most `2^5` seconds.
pub fn retry_delay_secs(attempts: u32) -> (secs: u64)
    ensures
        secs == retry_delay(attempts),
{
    let capped: u32 = if attempts < 5 {
        attempts
    } else {
        5
    };
    let mut secs: u64 = 1;
    let mut i: u32 = 0;
    while i < capped
        invariant
            i <= capped <= 5,
            capped == (if attempts < 5 {
                attempts
            } else {
                5
            }),
            secs == retry_delay(i),
        decreases capped - i,
    {
        secs = secs * 2;
        i = i + 1;
    }
    secs
}

/// A file being cast: its title, its length and how far it has played.
#[derive(Debug)]
pub struct MediaState {
    pub title: String,
    pub length: Duration,
    pub current: Duration,
}

/// The texts that show a file being cast.
#[derive(Debug)]
pub struct MediaLabels {
    /// How far it has played.
    pub time: String,
    /// Its length.
    pub end: String,
    /// The window title.
    pub title: String,
}

/// How `Duration`'s `Debug` writes a duration.
pub uninterp spec fn duration_text(d: Duration) -> Seq<char>;

/// Writes a duration with `Duration`'s `Debug`; the text is named by
/// `duration_text`.
#[verifier::external_body]
fn debug_duration(d: &Duration) -> (t: String)
    ensures
        t@ == duration_text(*d),
{
    format!("{:?}", d)
}

/// The texts that show `media`: how far it played, its length and a title
/// naming it; zeros and the program's name when nothing is cast.
pub fn media_labels(media: Option<&MediaState>) -> (l: MediaLabels)
    ensures
        match media {
            Some(m) => l.time@ == duration_text(m.current) && l.end@ == duration_text(m.length)
                && l.title@ == "Casting "@ + m.title@,
            None => l.time@ == "00:00:00"@ && l.end@ == "00:00:00"@ && l.title@ == "MpvCast"@,
        },
{
    match media {
        Some(m) => {
            let mut title = "Casting ".to_owned();
            title.append(m.title.as_str());
            MediaLabels { time: debug_duration(&m.current), end: debug_duration(&m.length), title }
        },
        None => MediaLabels {
            time: "00:00:00".to_owned(),
            end: "00:00:00".to_owned(),
            title: "MpvCast".to_owned(),
        },
    }
}

} // verus!
