//! One live connection's state machine. It decides, from wire events and
//! heartbeat ticks, which hub messages to emit and what to send back; the
//! caller owns the wire and the timers and performs the returned action.

use vstd::prelude::*;

use crate::ids::Uid;

verus! {

/// Time units between liveness pings.
pub const HEARTBEAT_INTERVAL: u64 = 5;

/// Time units of silence after which the session closes itself.
pub const CLIENT_TIMEOUT: u64 = 10;

/// One wire-level event observed by the session.
#[derive(Debug)]
pub enum WsEvent {
    Ping(Vec<u8>),
    Pong,
    Text(String),
    Binary(Vec<u8>),
    Close,
    Continuation,
    Nop,
    /// Malformed traffic; fatal to this session only.
    ProtocolError,
}

/// What the caller must do next.
#[derive(Debug, PartialEq, Eq)]
pub enum WsAction {
    /// Announce this session to the hub.
    EmitConnect,
    /// Announce this session's end to the hub.
    EmitDisconnect,
    /// Answer a ping, echoing its payload.
    Pong(Vec<u8>),
    /// Echo a binary frame back.
    EchoBinary(Vec<u8>),
    /// Hand an application payload to the hub for broadcast.
    Relay(String),
    /// Close the wire, then stop the session.
    CloseSession,
    /// Stop the session.
    StopSession,
    /// Send a liveness ping.
    SendPing,
    NoAction,
}

/// The per-connection session: one device, one group, one heartbeat clock.
pub struct WebSocket {
    pub id: Uid,
    pub room: Uid,
    pub hb: u64,
    pub disconnect_emitted: bool,
}

impl WebSocket {
    /// The time of the last traffic observed, in time units.
    pub open spec fn heartbeat(self) -> u64 {
        self.hb
    }

    /// Whether the one allowed disconnect has already been emitted.
    pub open spec fn disconnected(self) -> bool {
        self.disconnect_emitted
    }

    pub fn new(device_id: Uid, room: Uid, now: u64) -> (r: WebSocket)
        ensures
            r.id == device_id,
            r.room == room,
            r.heartbeat() == now,
            !r.disconnected(),
    {
        WebSocket { id: device_id, room, hb: now, disconnect_emitted: false }
    }

    /// On handshake success the session announces itself to the hub.
    pub fn started(&self) -> (r: WsAction)
        ensures
            r is EmitConnect,
    {
        WsAction::EmitConnect
    }

    /// One inbound wire event. Pings and pongs refresh the heartbeat; text
    /// is relayed to the hub unread; a close frame, a continuation frame or
    /// a protocol violation ends this session and no other.
    pub fn handle(&mut self, event: WsEvent, now: u64) -> (r: WsAction)
        ensures
            final(self).id == old(self).id,
            final(self).room == old(self).room,
            final(self).disconnected() == old(self).disconnected(),
            match event {
                WsEvent::Ping(data) => r == WsAction::Pong(data) && final(self).heartbeat() == now,
                WsEvent::Pong => r is NoAction && final(self).heartbeat() == now,
                WsEvent::Text(s) => r == WsAction::Relay(s) && final(self).heartbeat() == old(
                    self,
                ).heartbeat(),
                WsEvent::Binary(data) => r == WsAction::EchoBinary(data) && final(self).heartbeat()
                    == old(self).heartbeat(),
                WsEvent::Close => r is CloseSession && final(self).heartbeat() == old(
                    self,
                ).heartbeat(),
                WsEvent::Continuation => r is StopSession && final(self).heartbeat() == old(
                    self,
                ).heartbeat(),
                WsEvent::Nop => r is NoAction && final(self).heartbeat() == old(self).heartbeat(),
                WsEvent::ProtocolError => r is StopSession && final(self).heartbeat() == old(
                    self,
                ).heartbeat(),
            },
    {
        match event {
            WsEvent::Ping(data) => {
                self.hb = now;
                WsAction::Pong(data)
            },
            WsEvent::Pong => {
                self.hb = now;
                WsAction::NoAction
            },
            WsEvent::Text(s) => WsAction::Relay(s),
            WsEvent::Binary(data) => WsAction::EchoBinary(data),
            WsEvent::Close => WsAction::CloseSession,
            WsEvent::Continuation => WsAction::StopSession,
            WsEvent::Nop => WsAction::NoAction,
            WsEvent::ProtocolError => WsAction::StopSession,
        }
    }

    /// One heartbeat timer tick: stop a session that has been silent past
    /// the timeout, ping it otherwise. The clock never runs backwards.
    pub fn hb_tick(&self, now: u64) -> (r: WsAction)
        requires
            self.heartbeat() <= now,
        ensures
            r == if now - self.heartbeat() > CLIENT_TIMEOUT {
                WsAction::StopSession
            } else {
                WsAction::SendPing
            },
    {
        if now - self.hb > CLIENT_TIMEOUT {
            WsAction::StopSession
        } else {
            WsAction::SendPing
        }
    }

    /// On any terminal condition the session tells the hub exactly once
    /// that it is gone; asking again yields nothing.
    pub fn stopping(&mut self) -> (r: WsAction)
        ensures
            final(self).id == old(self).id,
            final(self).room == old(self).room,
            final(self).heartbeat() == old(self).heartbeat(),
            final(self).disconnected(),
            r == if old(self).disconnected() {
                WsAction::NoAction
            } else {
                WsAction::EmitDisconnect
            },
    {
        if self.disconnect_emitted {
            WsAction::NoAction
        } else {
            self.disconnect_emitted = true;
            WsAction::EmitDisconnect
        }
    }
}

} // verus!
