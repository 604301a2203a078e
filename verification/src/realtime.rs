//! The client of the remote change feed: what to subscribe to, how inbound
//! notifications become playlist events, and the connection life cycle.
//!
//! The connection itself is not made here. `RealtimeManager::run` takes what
//! happened on the connection and says what to do next.

use crate::addresses::{parsed_scheme, rewritten_url, url_rewrite, url_scheme};
use crate::assets::{DeviceScopes, Media, ScopeEntry};
use crate::text::{joined, option_text, same_text};
use vstd::prelude::*;
use vstd::string::*;

verus! {

/// The seconds to wait after a lost connection before the next attempt.
pub const RECONNECT_DELAY_SECS: u64 = 5;

/// Events from the realtime subscription.
#[derive(Debug, Clone, PartialEq, Eq)]
pub enum RealtimeEvent {
    /// Connection established.
    Connected,
    /// Connection lost.
    Disconnected,
    /// Media item created.
    MediaCreated(Media),
    /// Media item updated.
    MediaUpdated(Media),
    /// Media item deleted.
    MediaDeleted(String),
    /// Full playlist refresh needed.
    RefreshNeeded,
}

/// The record of an inbound notification, as far as it could be decoded.
#[derive(Debug, Clone, PartialEq, Eq)]
pub struct Record {
    /// The record's `id`, where it is a string.
    pub id: Option<String>,
    /// The record as a media item, where it decodes as one.
    pub media: Option<Media>,
}

/// A decoded inbound text message. A message that does not decode has no
/// field set.
#[derive(Debug, Clone, PartialEq, Eq)]
pub struct RealtimeMessage {
    /// The connection identifier, where the message carries one.
    pub client_id: Option<String>,
    /// `"create"`, `"update"` or `"delete"` for a notification.
    pub action: Option<String>,
    pub record: Option<Record>,
}

/// What arrived on the connection.
#[derive(Debug, Clone, PartialEq, Eq)]
pub enum Frame {
    Text(RealtimeMessage),
    /// A keepalive with its payload.
    Ping(Vec<u8>),
    /// The server closed the connection.
    Close,
    /// Anything else.
    Other,
}

/// What happened on the connection since the last step.
#[derive(Debug, Clone, PartialEq, Eq)]
pub enum SyncInput {
    /// It is time for a connection attempt.
    Retry,
    /// The transport is connected.
    Opened,
    Received(Frame),
    /// The connection failed or ended, or an output could not be carried out.
    Failed,
}

/// The state of the connection.
#[derive(Debug, Clone, Copy, PartialEq, Eq, Structural)]
pub enum SyncState {
    Disconnected,
    Connecting,
    AwaitingHandshake,
    Subscribed,
}

/// What the caller is to do, in the order given. Where an output cannot be
/// carried out, the caller leaves the rest undone and reports `Failed`.
#[derive(Debug, Clone, PartialEq, Eq)]
pub enum SyncOutput {
    /// Connect to `url`, with the `Authorization` header if there is one.
    Connect { url: String, authorization: Option<String> },
    /// Send the subscribe message.
    Subscribe { client_id: String, subscription: String },
    /// Hand the event to the consumer; wait if its queue is full.
    Emit(RealtimeEvent),
    /// Answer a keepalive with its payload.
    Pong(Vec<u8>),
    /// Wait this many seconds, then report `Retry`.
    Wait(u64),
}

/// An output as the contracts see it.
pub enum OutputView {
    Connect { url: Seq<char>, authorization: Option<Seq<char>> },
    Subscribe { client_id: Seq<char>, subscription: Seq<char> },
    Emit(RealtimeEvent),
    Pong(Seq<u8>),
    Wait(u64),
}

impl View for SyncOutput {
    type V = OutputView;

    open spec fn view(&self) -> OutputView {
        match *self {
            SyncOutput::Connect { url, authorization } => OutputView::Connect {
                url: url@,
                authorization: option_text(authorization),
            },
            SyncOutput::Subscribe { client_id, subscription } => OutputView::Subscribe {
                client_id: client_id@,
                subscription: subscription@,
            },
            SyncOutput::Emit(e) => OutputView::Emit(e),
            SyncOutput::Pong(d) => OutputView::Pong(d@),
            SyncOutput::Wait(secs) => OutputView::Wait(secs),
        }
    }
}

/// The outputs of a step as the contracts see them.
pub open spec fn output_views(outputs: Seq<SyncOutput>) -> Seq<OutputView> {
    Seq::new(outputs.len(), |i: int| outputs[i]@)
}

/// Why no realtime address could be made of the base URL.
#[derive(Debug, Clone, Copy, PartialEq, Eq, Structural)]
pub enum UrlError {
    /// The base URL is no absolute URL.
    Invalid,
    /// The URL cannot take a WebSocket scheme.
    Scheme,
}

/// Whether a scope list names the device `device`.
pub open spec fn names_device(entries: Seq<ScopeEntry>, device: Seq<char>) -> bool {
    exists|i: int|
        0 <= i < entries.len() && (#[trigger] entries[i] matches ScopeEntry::Device(d) && d@
            == device)
}

/// Whether an item with the scope `scopes` is meant for this device: always
/// without a device id, and else where the scope is no list, an empty list,
/// or a list that names the device.
pub open spec fn in_scope(device: Option<Seq<char>>, scopes: Option<DeviceScopes>) -> bool {
    match (device, scopes) {
        (Some(d), Some(DeviceScopes::List(entries))) => entries@.len() == 0 || names_device(
            entries@,
            d,
        ),
        _ => true,
    }
}

/// The event that an inbound notification stands for, if any.
pub open spec fn routed(device: Option<Seq<char>>, msg: RealtimeMessage) -> Option<RealtimeEvent> {
    match (msg.action, msg.record) {
        (Some(action), Some(record)) => {
            if action@ == "create"@ {
                match record.media {
                    Some(m) => if in_scope(device, m.device_scopes) {
                        Some(RealtimeEvent::MediaCreated(m))
                    } else {
                        None
                    },
                    None => None,
                }
            } else if action@ == "update"@ {
                match record.media {
                    Some(m) => if in_scope(device, m.device_scopes) {
                        Some(RealtimeEvent::MediaUpdated(m))
                    } else {
                        Some(RealtimeEvent::MediaDeleted(m.id))
                    },
                    None => None,
                }
            } else if action@ == "delete"@ {
                match record.id {
                    Some(id) => Some(RealtimeEvent::MediaDeleted(id)),
                    None => None,
                }
            } else {
                None
            }
        },
        _ => None,
    }
}

/// The subscription for the media collection: published items, and with a
/// device id only those in the device's scope.
pub open spec fn subscription_for(device: Option<Seq<char>>) -> Seq<char> {
    match device {
        Some(d) => "media?filter=(status='published') && (deviceScopes~'"@ + d
            + "' || deviceScopes='[]' || deviceScopes='' || deviceScopes=null)"@,
        None => "media?filter=status='published'"@,
    }
}

/// The WebSocket scheme that goes with a scheme: `wss` for `https`, `ws`
/// for every other.
pub open spec fn ws_scheme(scheme: Seq<char>) -> Seq<char> {
    if scheme == "https"@ {
        "wss"@
    } else {
        "ws"@
    }
}

/// The address of the realtime endpoint for a base URL.
pub open spec fn ws_address(base: Seq<char>) -> Result<Seq<char>, UrlError> {
    match parsed_scheme(base) {
        None => Err(UrlError::Invalid),
        Some(s) => match rewritten_url(base, ws_scheme(s), "/api/realtime"@) {
            Some(u) => Ok(u),
            None => Err(UrlError::Scheme),
        },
    }
}

/// The `Authorization` header for a token.
pub open spec fn bearer(token: Option<Seq<char>>) -> Option<Seq<char>> {
    match token {
        Some(t) => Some("Bearer "@ + t),
        None => None,
    }
}

/// The outputs that announce a lost connection.
pub open spec fn lost() -> Seq<OutputView> {
    seq![OutputView::Emit(RealtimeEvent::Disconnected), OutputView::Wait(RECONNECT_DELAY_SECS)]
}

/// The state after a step.
pub open spec fn next_state(state: SyncState, input: SyncInput, base: Seq<char>) -> SyncState {
    match input {
        SyncInput::Failed => SyncState::Disconnected,
        SyncInput::Retry => if state == SyncState::Disconnected && ws_address(base) is Ok {
            SyncState::Connecting
        } else {
            state
        },
        SyncInput::Opened => if state == SyncState::Connecting {
            SyncState::AwaitingHandshake
        } else {
            state
        },
        SyncInput::Received(frame) => match (state, frame) {
            (SyncState::AwaitingHandshake, Frame::Text(m)) => if m.client_id is Some {
                SyncState::Subscribed
            } else {
                state
            },
            (SyncState::AwaitingHandshake, Frame::Close) => SyncState::Disconnected,
            (SyncState::Subscribed, Frame::Close) => SyncState::Disconnected,
            _ => state,
        },
    }
}

/// The outputs of a step.
pub open spec fn next_outputs(
    state: SyncState,
    input: SyncInput,
    base: Seq<char>,
    device: Option<Seq<char>>,
    token: Option<Seq<char>>,
) -> Seq<OutputView> {
    match input {
        SyncInput::Failed => lost(),
        SyncInput::Retry => if state == SyncState::Disconnected {
            match ws_address(base) {
                Ok(url) => seq![OutputView::Connect { url, authorization: bearer(token) }],
                Err(_) => lost(),
            }
        } else {
            Seq::empty()
        },
        SyncInput::Opened => Seq::empty(),
        SyncInput::Received(frame) => match (state, frame) {
            (SyncState::AwaitingHandshake, Frame::Text(m)) => match m.client_id {
                Some(id) => seq![
                    OutputView::Subscribe {
                        client_id: id@,
                        subscription: subscription_for(device),
                    },
                    OutputView::Emit(RealtimeEvent::Connected),
                    OutputView::Emit(RealtimeEvent::RefreshNeeded),
                ],
                None => Seq::empty(),
            },
            (SyncState::AwaitingHandshake, Frame::Close) => lost(),
            (SyncState::Subscribed, Frame::Text(m)) => match routed(device, m) {
                Some(e) => seq![OutputView::Emit(e)],
                None => Seq::empty(),
            },
            (SyncState::Subscribed, Frame::Ping(data)) => seq![OutputView::Pong(data@)],
            (SyncState::Subscribed, Frame::Close) => lost(),
            _ => Seq::empty(),
        },
    }
}

/// The WebSocket scheme that goes with a scheme.
pub fn ws_scheme_for(scheme: &str) -> (r: &'static str)
    ensures
        r@ == ws_scheme(scheme@),
{
    if same_text(scheme, "https") {
        "wss"
    } else {
        "ws"
    }
}

/// Realtime connection manager.
pub struct RealtimeManager {
    pb_url: String,
    device_id: Option<String>,
    token: Option<String>,
    state: SyncState,
}

impl RealtimeManager {
    /// The base URL of the remote source.
    pub closed spec fn base(&self) -> Seq<char> {
        self.pb_url@
    }

    /// The id of this device, if it has one.
    pub closed spec fn device(&self) -> Option<Seq<char>> {
        option_text(self.device_id)
    }

    /// The token to connect with, if there is one.
    pub closed spec fn credential(&self) -> Option<Seq<char>> {
        option_text(self.token)
    }

    /// The state of the connection.
    pub closed spec fn state(&self) -> SyncState {
        self.state
    }

    /// Create a new realtime manager. It starts disconnected.
    pub fn new(pb_url: String, device_id: Option<String>, token: Option<String>) -> (r: Self)
        ensures
            r.base() == pb_url@,
            r.device() == option_text(device_id),
            r.credential() == option_text(token),
            r.state() == SyncState::Disconnected,
    {
        RealtimeManager { pb_url, device_id, token, state: SyncState::Disconnected }
    }

    /// Build the WebSocket URL.
    pub fn ws_url(&self) -> (r: Result<String, UrlError>)
        ensures
            match (r, ws_address(self.base())) {
                (Ok(u), Ok(v)) => u@ == v,
                (Err(e), Err(f)) => e == f,
                _ => false,
            },
    {
        match url_scheme(self.pb_url.as_str()) {
            None => Err(UrlError::Invalid),
            Some(scheme) => {
                let target = ws_scheme_for(scheme.as_str());
                match url_rewrite(self.pb_url.as_str(), target, "/api/realtime") {
                    Some(u) => Ok(u),
                    None => Err(UrlError::Scheme),
                }
            },
        }
    }

    /// Build the subscription filter for media collection.
    pub fn build_subscription(&self) -> (r: String)
        ensures
            r@ == subscription_for(self.device()),
    {
        match &self.device_id {
            Some(device_id) => {
                let mut s = joined(
                    "media?filter=(status='published') && (deviceScopes~'",
                    device_id.as_str(),
                );
                s.append("' || deviceScopes='[]' || deviceScopes='' || deviceScopes=null)");
                s
            },
            None => "media?filter=status='published'".to_owned(),
        }
    }

    /// Check if a media item matches our filter.
    pub fn matches_filter(&self, media: &Media) -> (r: bool)
        ensures
            r == in_scope(self.device(), media.device_scopes),
    {
        match (&self.device_id, &media.device_scopes) {
            (Some(device_id), Some(DeviceScopes::List(entries))) => {
                if entries.len() == 0 {
                    return true;
                }
                let mut i: usize = 0;
                while i < entries.len()
                    invariant
                        i <= entries.len(),
                        entries.len() > 0,
                        self.device() == Some(device_id@),
                        media.device_scopes == Some(DeviceScopes::List(*entries)),
                        forall|j: int|
                            0 <= j < i ==> !(#[trigger] entries@[j] matches ScopeEntry::Device(d)
                                && d@ == device_id@),
                    decreases entries.len() - i,
                {
                    match &entries[i] {
                        ScopeEntry::Device(d) => {
                            if same_text(d.as_str(), device_id.as_str()) {
                                assert(entries@[i as int] matches ScopeEntry::Device(x) && x@
                                    == device_id@);
                                return true;
                            }
                        },
                        ScopeEntry::Other(_) => {},
                    }
                    i = i + 1;
                }
                false
            },
            _ => true,
        }
    }

    /// Handle an incoming realtime message: the event that it stands for on
    /// this device, if any.
    pub fn handle_message(&self, msg: RealtimeMessage) -> (r: Option<RealtimeEvent>)
        ensures
            r == routed(self.device(), msg),
    {
        let RealtimeMessage { client_id: _, action, record } = msg;
        match (action, record) {
            (Some(action), Some(record)) => {
                let Record { id, media } = record;
                if same_text(action.as_str(), "create") {
                    match media {
                        Some(m) => {
                            if self.matches_filter(&m) {
                                Some(RealtimeEvent::MediaCreated(m))
                            } else {
                                None
                            }
                        },
                        None => None,
                    }
                } else if same_text(action.as_str(), "update") {
                    match media {
                        Some(m) => {
                            if self.matches_filter(&m) {
                                Some(RealtimeEvent::MediaUpdated(m))
                            } else {
                                Some(RealtimeEvent::MediaDeleted(m.id))
                            }
                        },
                        None => None,
                    }
                } else if same_text(action.as_str(), "delete") {
                    match id {
                        Some(id) => Some(RealtimeEvent::MediaDeleted(id)),
                        None => None,
                    }
                } else {
                    None
                }
            },
            _ => None,
        }
    }

    /// Check if currently connected: subscribed and streaming.
    pub fn is_connected(&self) -> (r: bool)
        ensures
            r == (self.state() == SyncState::Subscribed),
    {
        self.state == SyncState::Subscribed
    }

    /// The outputs that announce a lost connection.
    fn lost() -> (out: Vec<SyncOutput>)
        ensures
            output_views(out@) == lost(),
    {
        let mut out: Vec<SyncOutput> = Vec::new();
        out.push(SyncOutput::Emit(RealtimeEvent::Disconnected));
        out.push(SyncOutput::Wait(RECONNECT_DELAY_SECS));
        assert(output_views(out@) =~= lost());
        out
    }

    /// One step of the connection loop: takes what happened on the
    /// connection, moves to the next state and says what to do.
    pub fn run(&mut self, input: SyncInput) -> (out: Vec<SyncOutput>)
        ensures
            final(self).base() == old(self).base(),
            final(self).device() == old(self).device(),
            final(self).credential() == old(self).credential(),
            final(self).state() == next_state(old(self).state(), input, old(self).base()),
            output_views(out@) == next_outputs(
                old(self).state(),
                input,
                old(self).base(),
                old(self).device(),
                old(self).credential(),
            ),
    {
        let mut out: Vec<SyncOutput> = Vec::new();
        match input {
            SyncInput::Failed => {
                self.state = SyncState::Disconnected;
                out = Self::lost();
            },
            SyncInput::Retry => {
                if self.state == SyncState::Disconnected {
                    match self.ws_url() {
                        Ok(url) => {
                            let authorization = match &self.token {
                                Some(t) => Some(joined("Bearer ", t.as_str())),
                                None => None,
                            };
                            out.push(SyncOutput::Connect { url, authorization });
                            self.state = SyncState::Connecting;
                        },
                        Err(_) => {
                            out = Self::lost();
                        },
                    }
                }
            },
            SyncInput::Opened => {
                if self.state == SyncState::Connecting {
                    self.state = SyncState::AwaitingHandshake;
                }
            },
            SyncInput::Received(frame) => {
                match self.state {
                    SyncState::AwaitingHandshake => {
                        match frame {
                            Frame::Text(m) => {
                                match m.client_id {
                                    Some(client_id) => {
                                        let subscription = self.build_subscription();
                                        out.push(SyncOutput::Subscribe { client_id, subscription });
                                        out.push(SyncOutput::Emit(RealtimeEvent::Connected));
                                        out.push(SyncOutput::Emit(RealtimeEvent::RefreshNeeded));
                                        self.state = SyncState::Subscribed;
                                    },
                                    None => {},
                                }
                            },
                            Frame::Close => {
                                self.state = SyncState::Disconnected;
                                out = Self::lost();
                            },
                            _ => {},
                        }
                    },
                    SyncState::Subscribed => {
                        match frame {
                            Frame::Text(m) => {
                                match self.handle_message(m) {
                                    Some(e) => {
                                        out.push(SyncOutput::Emit(e));
                                    },
                                    None => {},
                                }
                            },
                            Frame::Ping(data) => {
                                out.push(SyncOutput::Pong(data));
                            },
                            Frame::Close => {
                                self.state = SyncState::Disconnected;
                                out = Self::lost();
                            },
                            Frame::Other => {},
                        }
                    },
                    _ => {},
                }
            },
        }
        assert(output_views(out@) =~= next_outputs(
            old(self).state(),
            input,
            old(self).base(),
            old(self).device(),
            old(self).credential(),
        ));
        out
    }
}

/// A change to an item that puts it out of this device's scope reaches the
/// playlist as the deletion of the item, not as an update.
pub proof fn lemma_update_out_of_scope_is_deletion(
    device: Seq<char>,
    msg: RealtimeMessage,
    media: Media,
    entries: Vec<ScopeEntry>,
)
    requires
        msg.action is Some,
        msg.action->0@ == "update"@,
        msg.record is Some,
        msg.record->0.media == Some(media),
        media.device_scopes == Some(DeviceScopes::List(entries)),
        entries@.len() > 0,
        !names_device(entries@, device),
    ensures
        routed(Some(device), msg) == Some(RealtimeEvent::MediaDeleted(media.id)),
{
    reveal_strlit("update");
    reveal_strlit("create");
    assert("update"@[0] != "create"@[0]);
}

/// No state is terminal: whatever the state, a failure leads to
/// `Disconnected`, and from there a retry, the opening of the transport and
/// the message with the connection identifier lead to `Subscribed`, as long
/// as the base URL gives a realtime address.
pub proof fn lemma_connection_recovers(state: SyncState, base: Seq<char>, hello: RealtimeMessage)
    requires
        ws_address(base) is Ok,
        hello.client_id is Some,
    ensures
        next_state(state, SyncInput::Failed, base) == SyncState::Disconnected,
        next_state(SyncState::Disconnected, SyncInput::Retry, base) == SyncState::Connecting,
        next_state(SyncState::Connecting, SyncInput::Opened, base) == SyncState::AwaitingHandshake,
        next_state(
            SyncState::AwaitingHandshake,
            SyncInput::Received(Frame::Text(hello)),
            base,
        ) == SyncState::Subscribed,
{
}

} // verus!
