//! The connection to a server or a demo: sign-on, what each server message
//! does to the client, and what follows the end of a connection.

use vstd::prelude::*;

use super::input::InputFocus;
use crate::console::output::{pushed, ConsoleOutput, OutputType};
use crate::console::registry::ConsoleError;
use crate::sound::{MusicSource, SoundError, StopSound};
use crate::text::{string_of, views};

verus! {

/// Protocol version the client speaks.
pub const PROTOCOL_VERSION: i32 = 15;

/// Number of client statistics a server keeps up to date.
pub const MAX_STATS: usize = 32;

/// Index of the statistic that counts secrets found.
pub const STAT_FOUND_SECRETS: usize = 13;

/// Index of the statistic that counts monsters killed.
pub const STAT_KILLED_MONSTERS: usize = 14;

/// Most static entities a level may spawn.
pub const MAX_STATIC_ENTITIES: usize = 128;

/// Volume of a sound packet that gives none.
pub const DEFAULT_SOUND_PACKET_VOLUME: u8 = 255;

/// Stages of signing on to a server.
#[derive(Clone, Copy, Debug, PartialEq, Eq, Structural)]
pub enum SignOnStage {
    Not,
    Prespawn,
    ClientInfo,
    Begin,
    Done,
}

/// The state of an active connection.
#[derive(Clone, Copy, Debug, PartialEq, Eq, Structural)]
pub enum ConnectionState {
    /// The client is in the sign-on process.
    SignOn(SignOnStage),
    /// The client is fully connected.
    Connected,
}

/// What should be done with the current connection.
#[derive(Clone, Copy, Debug, PartialEq, Eq, Structural)]
pub enum ConnectionStatus {
    /// Keep the connection.
    Maintain,
    /// Disconnect from the server or demo.
    Disconnect,
    /// Play the next demo in the demo queue.
    NextDemo,
}

/// What the client is connected to.
#[derive(Clone, Copy, Debug, PartialEq, Eq, Structural)]
pub enum ConnectionKind {
    /// A regular Quake server.
    Server,
    /// A recorded demo.
    Demo,
}

/// Errors of the client.
#[derive(Debug)]
pub enum ClientError {
    ConnectionRejected(String),
    Cvar(ConsoleError),
    InvalidConnectPort(i32),
    InvalidConnectResponse,
    InvalidServerAddress,
    NoResponse,
    UnrecognizedProtocol(i32),
    NotConnected,
    AlreadySignedOn,
    NoSuchClient(usize),
    NoSuchPlayer(usize),
    NoSuchEntity(usize),
    NullEntity,
    EntityExists(usize),
    InvalidViewEntity(usize),
    TooManyStaticEntities,
    NoSuchLightmapAnimation(usize),
    OutputStream,
    Sound(SoundError),
}

/// What a sign-on message asks of the client.
pub struct SignOnStep {
    /// The new connection state, if it changes.
    pub next: Option<ConnectionState>,
    /// String commands to send to the server, in order.
    pub send: Vec<String>,
    /// Whether the game clock restarts from now.
    pub restart_clock: bool,
}

/// The string commands a server connection sends on reaching a stage.
pub open spec fn signon_commands(stage: SignOnStage) -> Seq<Seq<char>> {
    match stage {
        SignOnStage::Prespawn => seq!["prespawn"@],
        SignOnStage::ClientInfo => seq!["name \"UNNAMED\"\n"@, "color 0 0"@, "spawn "@],
        SignOnStage::Begin => seq!["begin"@],
        _ => Seq::empty(),
    }
}

/// What a sign-on message of `stage` asks of the client in `state`: see
/// [`handle_signon`].
pub open spec fn signon_step_ok(state: ConnectionState, kind: ConnectionKind, stage: SignOnStage, step: SignOnStep) -> bool {
    &&& state is Connected ==> step.next is None && step.send@.len() == 0 && !step.restart_clock
    &&& state is SignOn ==> {
        &&& step.next == Some(
            if stage == SignOnStage::Done {
                ConnectionState::Connected
            } else {
                ConnectionState::SignOn(stage)
            },
        )
        &&& views(step.send@) == (if kind == ConnectionKind::Server {
            signon_commands(stage)
        } else {
            Seq::empty()
        })
        &&& step.restart_clock == (kind == ConnectionKind::Server && stage == SignOnStage::Done)
    }
}

/// Handles a sign-on message: while signing on, a server connection sends
/// the commands of the new stage, and the state advances (to `Connected`
/// at `Done`); once connected, sign-on messages are ignored.
pub fn handle_signon(state: ConnectionState, kind: ConnectionKind, stage: SignOnStage) -> (r: SignOnStep)
    requires
        state is SignOn ==> stage != SignOnStage::Not,
    ensures
        state is Connected ==> r.next is None && r.send@.len() == 0 && !r.restart_clock,
        state is SignOn ==> {
            &&& r.next == Some(
                if stage == SignOnStage::Done {
                    ConnectionState::Connected
                } else {
                    ConnectionState::SignOn(stage)
                },
            )
            &&& views(r.send@) == (if kind == ConnectionKind::Server {
                signon_commands(stage)
            } else {
                Seq::empty()
            })
            &&& r.restart_clock == (kind == ConnectionKind::Server && stage == SignOnStage::Done)
        },
        signon_step_ok(state, kind, stage, r),
{
    match state {
        ConnectionState::Connected => SignOnStep { next: None, send: Vec::new(), restart_clock: false },
        ConnectionState::SignOn(_) => {
            let mut send: Vec<String> = Vec::new();
            let mut restart_clock = false;
            if kind == ConnectionKind::Server {
                match stage {
                    SignOnStage::Not => {},
                    SignOnStage::Prespawn => {
                        send.push(String::from_str("prespawn"));
                    },
                    SignOnStage::ClientInfo => {
                        send.push(String::from_str("name \"UNNAMED\"\n"));
                        send.push(String::from_str("color 0 0"));
                        send.push(String::from_str("spawn "));
                    },
                    SignOnStage::Begin => {
                        send.push(String::from_str("begin"));
                    },
                    SignOnStage::Done => {
                        restart_clock = true;
                    },
                }
            }
            assert(views(send@) =~= (if kind == ConnectionKind::Server {
                signon_commands(stage)
            } else {
                Seq::empty()
            }));
            let next = match stage {
                SignOnStage::Done => ConnectionState::Connected,
                _ => ConnectionState::SignOn(stage),
            };
            SignOnStep { next: Some(next), send, restart_clock }
        },
    }
}

/// Colours of a player: shirt and pants.
#[derive(Clone, Copy, Debug, PartialEq, Eq, Structural)]
pub struct PlayerColor {
    pub top: u8,
    pub bottom: u8,
}

/// What the client knows of a player.
#[derive(Clone, Debug)]
pub struct PlayerInfo {
    pub name: String,
    pub colors: PlayerColor,
    pub frags: i32,
}

/// Why the level ended.
#[derive(Clone, Debug)]
pub enum IntermissionKind {
    Intermission,
    Finale { text: String },
    Cutscene { text: String },
}

/// The part of the client state that server messages update directly.
pub struct ClientModel {
    /// Game time, in milliseconds.
    pub time: i64,
    /// Times of the newest and the previous server message, in milliseconds.
    pub msg_times: (i64, i64),
    pub intermission: Option<IntermissionKind>,
    pub completion_time: Option<i64>,
    pub stats: Vec<i32>,
    pub player_info: Vec<Option<PlayerInfo>>,
    pub entity_count: usize,
    pub sound_count: usize,
    pub static_entity_count: usize,
    pub view_entity: usize,
}

/// The server messages, with what the client's decisions read of them.
pub enum ServerCmd {
    Bad,
    NoOp,
    CdTrack { track: u8 },
    CenterPrint { text: String },
    PlayerData,
    Cutscene { text: String },
    Damage,
    Disconnect,
    FastUpdate { ent_id: u16 },
    Finale { text: String },
    FoundSecret,
    Intermission,
    KilledMonster,
    LightStyle { id: u8, value: String },
    Particle { color: u8, count: u8 },
    Print { text: String },
    ServerInfo { protocol_version: i32, message: String },
    SetAngle,
    SetView { ent_id: i16 },
    SignOnStage { stage: SignOnStage },
    Sound { entity_id: u16, channel: i8, sound_id: u8, volume: Option<u8> },
    SpawnBaseline { ent_id: u16 },
    SpawnStatic,
    SpawnStaticSound { sound_id: u8, volume: u8 },
    TempEntity,
    StuffText { text: String },
    Time { time_ms: i64 },
    UpdateColors { player_id: u8, new_colors: PlayerColor },
    UpdateFrags { player_id: u8, new_frags: i16 },
    UpdateName { player_id: u8, new_name: String },
    UpdateStat { stat: u8, value: i32 },
    Version { version: i32 },
    SetPause,
    StopSound { entity_id: u16, channel: i8 },
    SellScreen,
}

/// Work a server message leaves for the rest of the client.
pub enum ClientAction {
    StartMusic(MusicSource),
    CenterPrint(String),
    PrintAlert(String),
    PrintlnAlert(String),
    /// The client state takes the player data of the message.
    UpdatePlayer,
    /// The client state applies the damage of the message.
    HandleDamage,
    /// Sends these string commands and applies this sign-on step.
    SignOn(SignOnStep),
    /// The client state updates an entity; in demos, the view angles of the
    /// view entity are patched too.
    UpdateEntity { ent_id: usize, patch_view_angles: bool },
    SetLightStyle { id: u8, value: String },
    SpawnExplosion,
    SpawnImpact { color: u8, count: u8 },
    /// The client state is rebuilt from the server info.
    LoadServerInfo,
    SetViewAngles,
    SetViewEntity(usize),
    StartSound { entity: usize, channel: i8, sound: usize, volume: u8 },
    SpawnBaseline(usize),
    SpawnStatic(usize),
    StartStaticSound { sound: usize, volume: u8 },
    SpawnTempEntity,
    StopSound(StopSound),
}

/// How processing of a server packet goes on after one message.
#[derive(Clone, Copy, Debug, PartialEq, Eq, Structural)]
pub enum Flow {
    /// Go on with the next message.
    Continue,
    /// Stop reading the packet; the connection is kept.
    Break,
    /// Stop reading the packet and end the connection this way.
    Stop(ConnectionStatus),
}

/// What the client model holds, as values.
pub struct ModelView {
    pub time: i64,
    pub msg_times: (i64, i64),
    pub intermission: Option<IntermissionKind>,
    pub completion_time: Option<i64>,
    pub stats: Seq<i32>,
    pub player_info: Seq<Option<PlayerInfo>>,
    pub entity_count: usize,
    pub sound_count: usize,
    pub static_entity_count: usize,
    pub view_entity: usize,
}

impl ClientModel {
    pub open spec fn view(&self) -> ModelView {
        ModelView {
            time: self.time,
            msg_times: self.msg_times,
            intermission: self.intermission,
            completion_time: self.completion_time,
            stats: self.stats@,
            player_info: self.player_info@,
            entity_count: self.entity_count,
            sound_count: self.sound_count,
            static_entity_count: self.static_entity_count,
            view_entity: self.view_entity,
        }
    }
}

/// Whether a server message can be handled without the client failing
/// on it: the version matches, statistics and sounds exist, counters do
/// not overflow, and sign-on stages are valid.
pub open spec fn handles_view(m: ModelView, state: ConnectionState, cmd: ServerCmd) -> bool {
    &&& m.stats.len() == MAX_STATS
    &&& match cmd {
        ServerCmd::Version { version } => version == PROTOCOL_VERSION,
        ServerCmd::SellScreen => false,
        ServerCmd::FoundSecret => m.stats[STAT_FOUND_SECRETS as int] < i32::MAX,
        ServerCmd::KilledMonster => m.stats[STAT_KILLED_MONSTERS as int] < i32::MAX,
        ServerCmd::UpdateStat { stat, .. } => stat < MAX_STATS,
        ServerCmd::Sound { entity_id, sound_id, .. } => entity_id < m.entity_count ==> sound_id
            < m.sound_count,
        ServerCmd::SignOnStage { stage } => state is SignOn ==> stage != SignOnStage::Not,
        _ => true,
    }
}

/// [`handles_view`] of a client model.
pub open spec fn handles(c: ClientModel, state: ConnectionState, cmd: ServerCmd) -> bool {
    handles_view(c.view(), state, cmd)
}

/// The connection state after a sign-on message of `stage`.
pub open spec fn signon_state(state: ConnectionState, stage: SignOnStage) -> ConnectionState {
    match state {
        ConnectionState::Connected => ConnectionState::Connected,
        ConnectionState::SignOn(_) => if stage == SignOnStage::Done {
            ConnectionState::Connected
        } else {
            ConnectionState::SignOn(stage)
        },
    }
}

/// The connection state after a server message that is handled.
pub open spec fn state_step(state: ConnectionState, cmd: ServerCmd) -> ConnectionState {
    match cmd {
        ServerCmd::FastUpdate { .. } => signon_state(state, SignOnStage::Done),
        ServerCmd::SignOnStage { stage } => signon_state(state, stage),
        _ => state,
    }
}

/// How reading a packet goes on after a server message: `None` when the
/// message is an error.
pub open spec fn cmd_outcome(m: ModelView, kind: ConnectionKind, cmd: ServerCmd) -> Option<Flow> {
    match cmd {
        ServerCmd::Disconnect => Some(
            Flow::Stop(
                if kind == ConnectionKind::Demo {
                    ConnectionStatus::NextDemo
                } else {
                    ConnectionStatus::Disconnect
                },
            ),
        ),
        ServerCmd::ServerInfo { protocol_version, .. } => if protocol_version != PROTOCOL_VERSION {
            None
        } else {
            Some(Flow::Continue)
        },
        ServerCmd::SetView { ent_id } => if ent_id < 0 {
            None
        } else {
            Some(Flow::Continue)
        },
        ServerCmd::Sound { entity_id, .. } => if entity_id >= m.entity_count {
            Some(Flow::Break)
        } else {
            Some(Flow::Continue)
        },
        ServerCmd::SpawnStatic => if m.static_entity_count >= MAX_STATIC_ENTITIES {
            None
        } else {
            Some(Flow::Continue)
        },
        ServerCmd::UpdateColors { player_id, .. } | ServerCmd::UpdateFrags { player_id, .. }
        | ServerCmd::UpdateName { player_id, .. } => if player_id >= m.player_info.len() {
            None
        } else {
            Some(Flow::Continue)
        },
        _ => Some(Flow::Continue),
    }
}

/// The error of a server message that [`cmd_outcome`] says is one.
pub open spec fn cmd_error(cmd: ServerCmd) -> ClientError {
    match cmd {
        ServerCmd::ServerInfo { protocol_version, .. } => ClientError::UnrecognizedProtocol(protocol_version),
        ServerCmd::SetView { ent_id } => ClientError::InvalidViewEntity(ent_id as usize),
        ServerCmd::UpdateColors { player_id, .. } | ServerCmd::UpdateFrags { player_id, .. }
        | ServerCmd::UpdateName { player_id, .. } => ClientError::NoSuchPlayer(player_id as usize),
        _ => ClientError::TooManyStaticEntities,
    }
}

/// The work a handled server message leaves for the rest of the client,
/// in order, in model `m` and connection state `state`; `track_override`
/// is the demo's choice of CD track and `demo_view` whether the packet
/// came from a demo that gives the view angles.
pub open spec fn cmd_acts(
    m: ModelView,
    state: ConnectionState,
    kind: ConnectionKind,
    cmd: ServerCmd,
    track_override: Option<u8>,
    demo_view: bool,
    a: Seq<ClientAction>,
) -> bool {
    match cmd {
        ServerCmd::CdTrack { track } => a.len() == 1 && (a[0] matches ClientAction::StartMusic(
            MusicSource::TrackId(t),
        ) && t == (match track_override {
            Some(o) => o as usize,
            None => track as usize,
        })),
        ServerCmd::CenterPrint { text } => a.len() == 1 && a[0] == ClientAction::CenterPrint(text),
        ServerCmd::PlayerData => a.len() == 1 && a[0] is UpdatePlayer,
        ServerCmd::Damage => a.len() == 1 && a[0] is HandleDamage,
        ServerCmd::FastUpdate { ent_id } => a.len() == 2 && (a[0] matches ClientAction::SignOn(step)
            && signon_step_ok(state, kind, SignOnStage::Done, step)) && a[1]
            == ClientAction::UpdateEntity {
            ent_id: ent_id as usize,
            patch_view_angles: demo_view && ent_id == m.view_entity,
        },
        ServerCmd::LightStyle { id, value } => a.len() == 1 && a[0] == ClientAction::SetLightStyle {
            id,
            value,
        },
        ServerCmd::Particle { color, count } => a.len() == 1 && a[0] == (if count == 255 {
            ClientAction::SpawnExplosion
        } else {
            ClientAction::SpawnImpact { color, count }
        }),
        ServerCmd::Print { text } => a.len() == 1 && a[0] == ClientAction::PrintAlert(text),
        ServerCmd::ServerInfo { message, .. } => a.len() == 4 && (a[0] matches ClientAction::PrintlnAlert(
            d1,
        ) && d1@ == console_divider()) && a[1] == ClientAction::PrintlnAlert(message) && (a[2] matches ClientAction::PrintlnAlert(
            d2,
        ) && d2@ == console_divider()) && a[3] is LoadServerInfo,
        ServerCmd::SetAngle => a.len() == 1 && a[0] is SetViewAngles,
        ServerCmd::SetView { ent_id } => if ent_id == 0 {
            a.len() == 0
        } else {
            a.len() == 1 && a[0] == ClientAction::SetViewEntity(ent_id as usize)
        },
        ServerCmd::SignOnStage { stage } => a.len() == 1 && (a[0] matches ClientAction::SignOn(step)
            && signon_step_ok(state, kind, stage, step)),
        ServerCmd::Sound { entity_id, channel, sound_id, volume } => if entity_id >= m.entity_count {
            a.len() == 0
        } else {
            a.len() == 1 && a[0] == ClientAction::StartSound {
                entity: entity_id as usize,
                channel,
                sound: sound_id as usize,
                volume: match volume {
                    Some(v) => v,
                    None => DEFAULT_SOUND_PACKET_VOLUME,
                },
            }
        },
        ServerCmd::SpawnBaseline { ent_id } => a.len() == 1 && a[0] == ClientAction::SpawnBaseline(
            ent_id as usize,
        ),
        ServerCmd::SpawnStatic => a.len() == 1 && a[0] == ClientAction::SpawnStatic(m.static_entity_count),
        ServerCmd::SpawnStaticSound { sound_id, volume } => if (sound_id as usize) < m.sound_count {
            a.len() == 1 && a[0] == ClientAction::StartStaticSound { sound: sound_id as usize, volume }
        } else {
            a.len() == 0
        },
        ServerCmd::TempEntity => a.len() == 1 && a[0] is SpawnTempEntity,
        ServerCmd::StopSound { entity_id, channel } => a.len() == 1 && a[0] == ClientAction::StopSound(
            StopSound { ent_id: Some(entity_id as usize), ent_channel: channel },
        ),
        _ => a.len() == 0,
    }
}

/// The client model after a server message that is handled.
pub open spec fn model_step(m: ModelView, cmd: ServerCmd) -> ModelView {
    match cmd {
        ServerCmd::Cutscene { text } => ModelView {
            intermission: Some(IntermissionKind::Cutscene { text }),
            completion_time: Some(m.time),
            ..m
        },
        ServerCmd::Finale { text } => ModelView {
            intermission: Some(IntermissionKind::Finale { text }),
            completion_time: Some(m.time),
            ..m
        },
        ServerCmd::Intermission => ModelView {
            intermission: Some(IntermissionKind::Intermission),
            completion_time: Some(m.time),
            ..m
        },
        ServerCmd::FoundSecret => ModelView {
            stats: m.stats.update(
                STAT_FOUND_SECRETS as int,
                (m.stats[STAT_FOUND_SECRETS as int] + 1) as i32,
            ),
            ..m
        },
        ServerCmd::KilledMonster => ModelView {
            stats: m.stats.update(
                STAT_KILLED_MONSTERS as int,
                (m.stats[STAT_KILLED_MONSTERS as int] + 1) as i32,
            ),
            ..m
        },
        ServerCmd::UpdateStat { stat, value } => ModelView {
            stats: m.stats.update(stat as int, value),
            ..m
        },
        ServerCmd::SpawnStatic => ModelView {
            static_entity_count: (m.static_entity_count + 1) as usize,
            ..m
        },
        ServerCmd::Time { time_ms } => ModelView { msg_times: (time_ms, m.msg_times.0), ..m },
        ServerCmd::UpdateColors { player_id, new_colors } => ModelView {
            player_info: match m.player_info[player_id as int] {
                Some(info) => m.player_info.update(
                    player_id as int,
                    Some(PlayerInfo { colors: new_colors, ..info }),
                ),
                None => m.player_info,
            },
            ..m
        },
        ServerCmd::UpdateFrags { player_id, new_frags } => ModelView {
            player_info: match m.player_info[player_id as int] {
                Some(info) => m.player_info.update(
                    player_id as int,
                    Some(PlayerInfo { frags: new_frags as i32, ..info }),
                ),
                None => m.player_info,
            },
            ..m
        },
        ServerCmd::UpdateName { player_id, new_name } => ModelView {
            player_info: m.player_info.update(
                player_id as int,
                Some(
                    match m.player_info[player_id as int] {
                        Some(info) => PlayerInfo { name: new_name, ..info },
                        None => PlayerInfo {
                            name: new_name,
                            colors: PlayerColor { top: 0, bottom: 0 },
                            frags: 0,
                        },
                    },
                ),
            ),
            ..m
        },
        _ => m,
    }
}

/// The text that frames the server's welcome message.
pub open spec fn console_divider() -> Seq<char> {
    seq!['\n', '\n', '\x1D'] + Seq::new(30, |i: int| '\x1E') + seq!['\x1F', '\n', '\n']
}

fn divider() -> (r: String)
    ensures
        r@ == console_divider(),
{
    let mut v: Vec<char> = Vec::new();
    v.push('\n');
    v.push('\n');
    v.push('\x1D');
    let mut i: usize = 0;
    while i < 30
        invariant
            i <= 30,
            v@ == seq!['\n', '\n', '\x1D'] + Seq::new(i as nat, |j: int| '\x1E'),
        decreases 30 - i,
    {
        v.push('\x1E');
        assert(v@ =~= seq!['\n', '\n', '\x1D'] + Seq::new((i + 1) as nat, |j: int| '\x1E'));
        i = i + 1;
    }
    v.push('\x1F');
    v.push('\n');
    v.push('\n');
    assert(v@ =~= console_divider());
    string_of(v.as_slice())
}

/// Handles one message of a server packet: updates the client model and
/// the connection state, and says what the rest of the client must do and
/// whether reading goes on.
///
/// `track_override` is the demo's choice of CD track, if any, and
/// `demo_view` says whether the packet came from a demo that gives the
/// view angles.
pub fn apply_server_cmd(
    c: &mut ClientModel,
    state: &mut ConnectionState,
    kind: ConnectionKind,
    cmd: ServerCmd,
    track_override: Option<u8>,
    demo_view: bool,
) -> (r: Result<(Flow, Vec<ClientAction>), ClientError>)
    requires
        handles(*old(c), *old(state), cmd),
    ensures
        final(c).stats@.len() == MAX_STATS,
        cmd_outcome(old(c).view(), kind, cmd) is None <==> r is Err,
        r matches Ok((f, _)) ==> cmd_outcome(old(c).view(), kind, cmd) == Some(f),
        r is Ok ==> final(c).view() == model_step(old(c).view(), cmd) && *final(state)
            == state_step(*old(state), cmd),
        r is Err ==> final(c).view() == old(c).view() && *final(state) == *old(state),
        r matches Err(e) ==> e == cmd_error(cmd),
        r matches Ok((_, a)) ==> cmd_acts(
            old(c).view(),
            *old(state),
            kind,
            cmd,
            track_override,
            demo_view,
            a@,
        ),
        match cmd {
            ServerCmd::Bad | ServerCmd::NoOp | ServerCmd::StuffText { .. } | ServerCmd::SetPause
            | ServerCmd::Version { .. } => r matches Ok((f, a)) && f == Flow::Continue
                && a@.len() == 0 && final(c).stats == old(c).stats,
            ServerCmd::CdTrack { track } => r matches Ok((f, a)) && f == Flow::Continue
                && a@.len() == 1 && (a@[0] matches ClientAction::StartMusic(
                MusicSource::TrackId(t),
            ) && t == (match track_override {
                Some(o) => o as usize,
                None => track as usize,
            })),
            ServerCmd::CenterPrint { text } => r matches Ok((f, a)) && f == Flow::Continue
                && a@.len() == 1 && a@[0] == ClientAction::CenterPrint(text),
            ServerCmd::PlayerData => r matches Ok((f, a)) && f == Flow::Continue && a@.len() == 1
                && a@[0] is UpdatePlayer,
            ServerCmd::Cutscene { text } => r matches Ok((f, a)) && f == Flow::Continue && a@.len()
                == 0 && final(c).intermission == Some(IntermissionKind::Cutscene { text })
                && final(c).completion_time == Some(old(c).time),
            ServerCmd::Damage => r matches Ok((f, a)) && f == Flow::Continue && a@.len() == 1
                && a@[0] is HandleDamage,
            ServerCmd::Disconnect => r matches Ok((f, a)) && a@.len() == 0 && f == Flow::Stop(
                if kind == ConnectionKind::Demo {
                    ConnectionStatus::NextDemo
                } else {
                    ConnectionStatus::Disconnect
                },
            ),
            ServerCmd::FastUpdate { ent_id } => r matches Ok((f, a)) && f == Flow::Continue
                && a@.len() == 2 && (a@[0] matches ClientAction::SignOn(step) && (*old(state)) is SignOn
                == step.next is Some) && (match *old(state) {
                ConnectionState::SignOn(_) => *final(state) == ConnectionState::Connected,
                ConnectionState::Connected => *final(state) == ConnectionState::Connected,
            }) && a@[1] == ClientAction::UpdateEntity {
                ent_id: ent_id as usize,
                patch_view_angles: demo_view && ent_id == old(c).view_entity,
            },
            ServerCmd::Finale { text } => r matches Ok((f, a)) && f == Flow::Continue && a@.len()
                == 0 && final(c).intermission == Some(IntermissionKind::Finale { text })
                && final(c).completion_time == Some(old(c).time),
            ServerCmd::FoundSecret => r matches Ok((f, a)) && f == Flow::Continue && a@.len() == 0
                && final(c).stats@ == old(c).stats@.update(
                STAT_FOUND_SECRETS as int,
                (old(c).stats@[STAT_FOUND_SECRETS as int] + 1) as i32,
            ),
            ServerCmd::Intermission => r matches Ok((f, a)) && f == Flow::Continue && a@.len() == 0
                && final(c).intermission == Some(IntermissionKind::Intermission)
                && final(c).completion_time == Some(old(c).time),
            ServerCmd::KilledMonster => r matches Ok((f, a)) && f == Flow::Continue && a@.len()
                == 0 && final(c).stats@ == old(c).stats@.update(
                STAT_KILLED_MONSTERS as int,
                (old(c).stats@[STAT_KILLED_MONSTERS as int] + 1) as i32,
            ),
            ServerCmd::LightStyle { id, value } => r matches Ok((f, a)) && f == Flow::Continue
                && a@.len() == 1 && a@[0] == ClientAction::SetLightStyle { id, value },
            ServerCmd::Particle { color, count } => r matches Ok((f, a)) && f == Flow::Continue
                && a@.len() == 1 && a@[0] == (if count == 255 {
                ClientAction::SpawnExplosion
            } else {
                ClientAction::SpawnImpact { color, count }
            }),
            ServerCmd::Print { text } => r matches Ok((f, a)) && f == Flow::Continue && a@.len()
                == 1 && a@[0] == ClientAction::PrintAlert(text),
            ServerCmd::ServerInfo { protocol_version, message } => if protocol_version
                != PROTOCOL_VERSION {
                r matches Err(ClientError::UnrecognizedProtocol(v)) && v == protocol_version
            } else {
                r matches Ok((f, a)) && f == Flow::Continue && a@.len() == 4 && (a@[0] matches ClientAction::PrintlnAlert(
                    d1,
                ) && d1@ == console_divider()) && a@[1] == ClientAction::PrintlnAlert(message)
                    && (a@[2] matches ClientAction::PrintlnAlert(d2) && d2@ == console_divider())
                    && a@[3] is LoadServerInfo
            },
            ServerCmd::SetAngle => r matches Ok((f, a)) && f == Flow::Continue && a@.len() == 1
                && a@[0] is SetViewAngles,
            ServerCmd::SetView { ent_id } => if ent_id == 0 {
                r matches Ok((f, a)) && f == Flow::Continue && a@.len() == 0
            } else if ent_id < 0 {
                r matches Err(ClientError::InvalidViewEntity(e)) && e == ent_id as usize
            } else {
                r matches Ok((f, a)) && f == Flow::Continue && a@.len() == 1 && a@[0]
                    == ClientAction::SetViewEntity(ent_id as usize)
            },
            ServerCmd::SignOnStage { stage } => r matches Ok((f, a)) && f == Flow::Continue
                && a@.len() == 1 && (a@[0] matches ClientAction::SignOn(step) && (match *old(state) {
                ConnectionState::SignOn(_) => step.next == Some(*final(state)) && *final(state) == (
                if stage == SignOnStage::Done {
                    ConnectionState::Connected
                } else {
                    ConnectionState::SignOn(stage)
                }) && views(step.send@) == (if kind == ConnectionKind::Server {
                    signon_commands(stage)
                } else {
                    Seq::empty()
                }),
                ConnectionState::Connected => step.next is None && step.send@.len() == 0
                    && *final(state) == ConnectionState::Connected,
            })),
            ServerCmd::Sound { entity_id, channel, sound_id, volume } => if entity_id
                >= old(c).entity_count {
                r matches Ok((f, a)) && f == Flow::Break && a@.len() == 0
            } else {
                r matches Ok((f, a)) && f == Flow::Continue && a@.len() == 1 && a@[0]
                    == ClientAction::StartSound {
                    entity: entity_id as usize,
                    channel,
                    sound: sound_id as usize,
                    volume: match volume {
                        Some(v) => v,
                        None => DEFAULT_SOUND_PACKET_VOLUME,
                    },
                }
            },
            ServerCmd::SpawnBaseline { ent_id } => r matches Ok((f, a)) && f == Flow::Continue
                && a@.len() == 1 && a@[0] == ClientAction::SpawnBaseline(ent_id as usize),
            ServerCmd::SpawnStatic => if old(c).static_entity_count >= MAX_STATIC_ENTITIES {
                r matches Err(ClientError::TooManyStaticEntities)
            } else {
                r matches Ok((f, a)) && f == Flow::Continue && a@.len() == 1 && a@[0]
                    == ClientAction::SpawnStatic(old(c).static_entity_count)
                    && final(c).static_entity_count == old(c).static_entity_count + 1
            },
            ServerCmd::SpawnStaticSound { sound_id, volume } => r matches Ok((f, a)) && f
                == Flow::Continue && (if (sound_id as usize) < old(c).sound_count {
                a@.len() == 1 && a@[0] == ClientAction::StartStaticSound {
                    sound: sound_id as usize,
                    volume,
                }
            } else {
                a@.len() == 0
            }),
            ServerCmd::TempEntity => r matches Ok((f, a)) && f == Flow::Continue && a@.len() == 1
                && a@[0] is SpawnTempEntity,
            ServerCmd::Time { time_ms } => r matches Ok((f, a)) && f == Flow::Continue && a@.len()
                == 0 && final(c).msg_times == (time_ms, old(c).msg_times.0),
            ServerCmd::UpdateColors { player_id, new_colors } => if (player_id as usize) >= old(
                c,
            ).player_info@.len() {
                r matches Err(ClientError::NoSuchPlayer(p)) && p == player_id as usize
            } else {
                r matches Ok((f, a)) && f == Flow::Continue && a@.len() == 0 && final(c).player_info@
                    == match old(c).player_info@[player_id as int] {
                    Some(info) => old(c).player_info@.update(
                        player_id as int,
                        Some(PlayerInfo { colors: new_colors, ..info }),
                    ),
                    None => old(c).player_info@,
                }
            },
            ServerCmd::UpdateFrags { player_id, new_frags } => if (player_id as usize) >= old(
                c,
            ).player_info@.len() {
                r matches Err(ClientError::NoSuchPlayer(p)) && p == player_id as usize
            } else {
                r matches Ok((f, a)) && f == Flow::Continue && a@.len() == 0 && final(c).player_info@
                    == match old(c).player_info@[player_id as int] {
                    Some(info) => old(c).player_info@.update(
                        player_id as int,
                        Some(PlayerInfo { frags: new_frags as i32, ..info }),
                    ),
                    None => old(c).player_info@,
                }
            },
            ServerCmd::UpdateName { player_id, new_name } => if (player_id as usize) >= old(
                c,
            ).player_info@.len() {
                r matches Err(ClientError::NoSuchPlayer(p)) && p == player_id as usize
            } else {
                r matches Ok((f, a)) && f == Flow::Continue && a@.len() == 0 && final(c).player_info@
                    == old(c).player_info@.update(
                    player_id as int,
                    Some(
                        match old(c).player_info@[player_id as int] {
                            Some(info) => PlayerInfo { name: new_name, ..info },
                            None => PlayerInfo {
                                name: new_name,
                                colors: PlayerColor { top: 0, bottom: 0 },
                                frags: 0,
                            },
                        },
                    ),
                )
            },
            ServerCmd::UpdateStat { stat, value } => r matches Ok((f, a)) && f == Flow::Continue
                && a@.len() == 0 && final(c).stats@ == old(c).stats@.update(stat as int, value),
            ServerCmd::StopSound { entity_id, channel } => r matches Ok((f, a)) && f
                == Flow::Continue && a@.len() == 1 && a@[0] == ClientAction::StopSound(
                StopSound { ent_id: Some(entity_id as usize), ent_channel: channel },
            ),
            ServerCmd::SellScreen => false,
        },
{
    let mut actions: Vec<ClientAction> = Vec::new();
    match cmd {
        ServerCmd::Bad | ServerCmd::NoOp | ServerCmd::StuffText { .. } | ServerCmd::SetPause
        | ServerCmd::Version { .. } => {},
        ServerCmd::CdTrack { track } => {
            let t = match track_override {
                Some(o) => o as usize,
                None => track as usize,
            };
            actions.push(ClientAction::StartMusic(MusicSource::TrackId(t)));
        },
        ServerCmd::CenterPrint { text } => {
            actions.push(ClientAction::CenterPrint(text));
        },
        ServerCmd::PlayerData => {
            actions.push(ClientAction::UpdatePlayer);
        },
        ServerCmd::Cutscene { text } => {
            c.intermission = Some(IntermissionKind::Cutscene { text });
            c.completion_time = Some(c.time);
        },
        ServerCmd::Damage => {
            actions.push(ClientAction::HandleDamage);
        },
        ServerCmd::Disconnect => {
            let status = match kind {
                ConnectionKind::Demo => ConnectionStatus::NextDemo,
                ConnectionKind::Server => ConnectionStatus::Disconnect,
            };
            return Ok((Flow::Stop(status), actions));
        },
        ServerCmd::FastUpdate { ent_id } => {
            let step = handle_signon(*state, kind, SignOnStage::Done);
            if let Some(next) = step.next {
                *state = next;
            }
            actions.push(ClientAction::SignOn(step));
            let patch = demo_view && ent_id as usize == c.view_entity;
            actions.push(ClientAction::UpdateEntity { ent_id: ent_id as usize, patch_view_angles: patch });
        },
        ServerCmd::Finale { text } => {
            c.intermission = Some(IntermissionKind::Finale { text });
            c.completion_time = Some(c.time);
        },
        ServerCmd::FoundSecret => {
            let v = c.stats[STAT_FOUND_SECRETS] + 1;
            c.stats.set(STAT_FOUND_SECRETS, v);
        },
        ServerCmd::Intermission => {
            c.intermission = Some(IntermissionKind::Intermission);
            c.completion_time = Some(c.time);
        },
        ServerCmd::KilledMonster => {
            let v = c.stats[STAT_KILLED_MONSTERS] + 1;
            c.stats.set(STAT_KILLED_MONSTERS, v);
        },
        ServerCmd::LightStyle { id, value } => {
            actions.push(ClientAction::SetLightStyle { id, value });
        },
        ServerCmd::Particle { color, count } => {
            if count == 255 {
                actions.push(ClientAction::SpawnExplosion);
            } else {
                actions.push(ClientAction::SpawnImpact { color, count });
            }
        },
        ServerCmd::Print { text } => {
            actions.push(ClientAction::PrintAlert(text));
        },
        ServerCmd::ServerInfo { protocol_version, message } => {
            if protocol_version != PROTOCOL_VERSION {
                return Err(ClientError::UnrecognizedProtocol(protocol_version));
            }
            actions.push(ClientAction::PrintlnAlert(divider()));
            actions.push(ClientAction::PrintlnAlert(message));
            actions.push(ClientAction::PrintlnAlert(divider()));
            actions.push(ClientAction::LoadServerInfo);
        },
        ServerCmd::SetAngle => {
            actions.push(ClientAction::SetViewAngles);
        },
        ServerCmd::SetView { ent_id } => {
            if ent_id == 0 {
            } else if ent_id < 0 {
                return Err(ClientError::InvalidViewEntity(ent_id as usize));
            } else {
                actions.push(ClientAction::SetViewEntity(ent_id as usize));
            }
        },
        ServerCmd::SignOnStage { stage } => {
            let step = handle_signon(*state, kind, stage);
            if let Some(next) = step.next {
                *state = next;
            }
            actions.push(ClientAction::SignOn(step));
        },
        ServerCmd::Sound { entity_id, channel, sound_id, volume } => {
            if entity_id as usize >= c.entity_count {
                return Ok((Flow::Break, actions));
            }
            let volume = match volume {
                Some(v) => v,
                None => DEFAULT_SOUND_PACKET_VOLUME,
            };
            actions.push(
                ClientAction::StartSound {
                    entity: entity_id as usize,
                    channel,
                    sound: sound_id as usize,
                    volume,
                },
            );
        },
        ServerCmd::SpawnBaseline { ent_id } => {
            actions.push(ClientAction::SpawnBaseline(ent_id as usize));
        },
        ServerCmd::SpawnStatic => {
            if c.static_entity_count >= MAX_STATIC_ENTITIES {
                return Err(ClientError::TooManyStaticEntities);
            }
            let id = c.static_entity_count;
            c.static_entity_count = id + 1;
            actions.push(ClientAction::SpawnStatic(id));
        },
        ServerCmd::SpawnStaticSound { sound_id, volume } => {
            if (sound_id as usize) < c.sound_count {
                actions.push(ClientAction::StartStaticSound { sound: sound_id as usize, volume });
            }
        },
        ServerCmd::TempEntity => {
            actions.push(ClientAction::SpawnTempEntity);
        },
        ServerCmd::Time { time_ms } => {
            c.msg_times = (time_ms, c.msg_times.0);
        },
        ServerCmd::UpdateColors { player_id, new_colors } => {
            let p = player_id as usize;
            if p >= c.player_info.len() {
                return Err(ClientError::NoSuchPlayer(p));
            }
            let updated = match &c.player_info[p] {
                Some(info) => Some(
                    PlayerInfo { name: info.name.clone(), colors: new_colors, frags: info.frags },
                ),
                None => None,
            };
            if updated.is_some() {
                c.player_info.set(p, updated);
            }
        },
        ServerCmd::UpdateFrags { player_id, new_frags } => {
            let p = player_id as usize;
            if p >= c.player_info.len() {
                return Err(ClientError::NoSuchPlayer(p));
            }
            let updated = match &c.player_info[p] {
                Some(info) => Some(
                    PlayerInfo {
                        name: info.name.clone(),
                        colors: info.colors,
                        frags: new_frags as i32,
                    },
                ),
                None => None,
            };
            if updated.is_some() {
                c.player_info.set(p, updated);
            }
        },
        ServerCmd::UpdateName { player_id, new_name } => {
            let p = player_id as usize;
            if p >= c.player_info.len() {
                return Err(ClientError::NoSuchPlayer(p));
            }
            let updated = match &c.player_info[p] {
                Some(info) => PlayerInfo { name: new_name, colors: info.colors, frags: info.frags },
                None => PlayerInfo {
                    name: new_name,
                    colors: PlayerColor { top: 0, bottom: 0 },
                    frags: 0,
                },
            };
            c.player_info.set(p, Some(updated));
        },
        ServerCmd::UpdateStat { stat, value } => {
            c.stats.set(stat as usize, value);
        },
        ServerCmd::StopSound { entity_id, channel } => {
            actions.push(
                ClientAction::StopSound(
                    StopSound { ent_id: Some(entity_id as usize), ent_channel: channel },
                ),
            );
        },
        ServerCmd::SellScreen => {},
    }
    Ok((Flow::Continue, actions))
}

/// Whether every message of a packet that is read is one the client can
/// handle, in the model and state that the messages before it left.
pub open spec fn msg_handled(m: ModelView, state: ConnectionState, kind: ConnectionKind, cmds: Seq<ServerCmd>) -> bool
    decreases cmds.len(),
{
    cmds.len() == 0 || (handles_view(m, state, cmds[0]) && (cmd_outcome(m, kind, cmds[0]) == Some(
        Flow::Continue,
    ) ==> msg_handled(
        model_step(m, cmds[0]),
        state_step(state, cmds[0]),
        kind,
        cmds.drop_first(),
    )))
}

/// The model and state after reading a packet, and how the connection goes
/// on, or the error of the message that failed. Messages are applied in
/// order until one stops the connection, ends the packet or is an error;
/// the messages after it are not applied. A packet read to its end keeps
/// the connection.
pub open spec fn msg_end(m: ModelView, state: ConnectionState, kind: ConnectionKind, cmds: Seq<ServerCmd>) -> (
    ModelView,
    ConnectionState,
    Result<ConnectionStatus, ClientError>,
)
    decreases cmds.len(),
{
    if cmds.len() == 0 {
        (m, state, Ok(ConnectionStatus::Maintain))
    } else {
        let c0 = cmds[0];
        match cmd_outcome(m, kind, c0) {
            None => (m, state, Err(cmd_error(c0))),
            Some(Flow::Continue) => msg_end(model_step(m, c0), state_step(state, c0), kind, cmds.drop_first()),
            Some(Flow::Break) => (model_step(m, c0), state_step(state, c0), Ok(ConnectionStatus::Maintain)),
            Some(Flow::Stop(st)) => (model_step(m, c0), state_step(state, c0), Ok(st)),
        }
    }
}

/// The work a packet that is read without error leaves: the work of each
/// message applied, in order, up to the one that stops the packet.
pub open spec fn msg_acts(
    m: ModelView,
    state: ConnectionState,
    kind: ConnectionKind,
    cmds: Seq<ServerCmd>,
    track_override: Option<u8>,
    demo_view: bool,
    acts: Seq<ClientAction>,
) -> bool
    decreases cmds.len(),
{
    if cmds.len() == 0 {
        acts.len() == 0
    } else {
        let c0 = cmds[0];
        match cmd_outcome(m, kind, c0) {
            None => false,
            Some(Flow::Continue) => exists|k: int|
                0 <= k <= acts.len() && #[trigger] cmd_acts(
                    m,
                    state,
                    kind,
                    c0,
                    track_override,
                    demo_view,
                    acts.take(k),
                ) && msg_acts(
                    model_step(m, c0),
                    state_step(state, c0),
                    kind,
                    cmds.drop_first(),
                    track_override,
                    demo_view,
                    acts.skip(k),
                ),
            Some(_) => cmd_acts(m, state, kind, c0, track_override, demo_view, acts),
        }
    }
}

/// Reads one server packet: `None` when a demo has no packet left, which
/// moves on to the next demo; an empty packet keeps the connection and
/// changes nothing; otherwise each message is handled in order, as
/// [`msg_end`] says, and the work the messages leave is collected in order,
/// as [`msg_acts`] says.
pub fn apply_server_msg(
    c: &mut ClientModel,
    state: &mut ConnectionState,
    kind: ConnectionKind,
    packet: Option<Vec<ServerCmd>>,
    track_override: Option<u8>,
    demo_view: bool,
) -> (r: Result<(ConnectionStatus, Vec<ClientAction>), ClientError>)
    requires
        packet matches Some(cmds) ==> msg_handled(old(c).view(), *old(state), kind, cmds@),
    ensures
        packet is None ==> (r matches Ok((st, a)) && st == ConnectionStatus::NextDemo && a@.len()
            == 0) && final(c).view() == old(c).view() && *final(state) == *old(state),
        packet matches Some(cmds) && cmds@.len() == 0 ==> (r matches Ok((st, a)) && st
            == ConnectionStatus::Maintain && a@.len() == 0),
        packet matches Some(cmds) ==> {
            let end = msg_end(old(c).view(), *old(state), kind, cmds@);
            &&& final(c).view() == end.0
            &&& *final(state) == end.1
            &&& r matches Ok((st, a)) ==> end.2 == Ok::<ConnectionStatus, ClientError>(st)
                && msg_acts(old(c).view(), *old(state), kind, cmds@, track_override, demo_view, a@)
            &&& r matches Err(e) ==> end.2 == Err::<ConnectionStatus, ClientError>(e)
        },
{
    let ghost orig = packet;
    let mut cmds = match packet {
        None => return Ok((ConnectionStatus::NextDemo, Vec::new())),
        Some(cmds) => cmds,
    };
    let ghost all = cmds@;
    let ghost m_start = c.view();
    let ghost s_start = *state;
    let mut actions: Vec<ClientAction> = Vec::new();
    while cmds.len() > 0
        invariant
            msg_handled(c.view(), *state, kind, cmds@),
            msg_end(c.view(), *state, kind, cmds@) == msg_end(m_start, s_start, kind, all),
            m_start == old(c).view(),
            s_start == *old(state),
            orig == packet,
            orig matches Some(v) && v@ == all,
            all.len() == 0 ==> cmds@.len() == 0 && actions@.len() == 0,
            forall|rest: Seq<ClientAction>|
                #[trigger] msg_acts(c.view(), *state, kind, cmds@, track_override, demo_view, rest)
                    ==> msg_acts(m_start, s_start, kind, all, track_override, demo_view, actions@ + rest),
        decreases cmds@.len(),
    {
        let ghost m0 = c.view();
        let ghost s0 = *state;
        let ghost before = cmds@;
        let ghost acts0 = actions@;
        let cmd = cmds.remove(0);
        assert(cmds@ =~= before.drop_first());
        let step = apply_server_cmd(c, state, kind, cmd, track_override, demo_view);
        match step {
            Err(e) => return Err(e),
            Ok((flow, mut more)) => {
                let ghost mv = more@;
                actions.append(&mut more);
                match flow {
                    Flow::Continue => {
                        assert forall|rest: Seq<ClientAction>|
                            #[trigger] msg_acts(c.view(), *state, kind, cmds@, track_override, demo_view, rest)
                            implies msg_acts(m_start, s_start, kind, all, track_override, demo_view, actions@ + rest) by {
                            let x = mv + rest;
                            assert(x.take(mv.len() as int) =~= mv);
                            assert(x.skip(mv.len() as int) =~= rest);
                            assert(cmd_acts(m0, s0, kind, before[0], track_override, demo_view, x.take(mv.len() as int)));
                            assert(msg_acts(m0, s0, kind, before, track_override, demo_view, x));
                            assert(acts0 + x =~= actions@ + rest);
                        }
                    },
                    Flow::Break => {
                        assert(msg_acts(m0, s0, kind, before, track_override, demo_view, mv));
                        assert(acts0 + mv =~= actions@);
                        return Ok((ConnectionStatus::Maintain, actions));
                    },
                    Flow::Stop(st) => {
                        assert(msg_acts(m0, s0, kind, before, track_override, demo_view, mv));
                        assert(acts0 + mv =~= actions@);
                        return Ok((st, actions));
                    },
                }
            },
        }
    }
    assert(msg_acts(c.view(), *state, kind, cmds@, track_override, demo_view, Seq::empty()));
    assert(actions@ + Seq::<ClientAction>::empty() =~= actions@);
    Ok((ConnectionStatus::Maintain, actions))
}

/// Where the next server packet comes from.
#[derive(Clone, Copy, Debug, PartialEq, Eq, Structural)]
pub enum Receive {
    /// Read from the server socket, waiting at most this long (in
    /// milliseconds) for it, or not at all.
    Server { timeout_ms: Option<i64> },
    /// Take the demo's next packet; if there is none, play the next demo.
    DemoNext,
    /// No packet this frame.
    Nothing,
}

/// How long a server may take to answer while the client signs on, in milliseconds.
pub const SIGNON_TIMEOUT_MS: i64 = 5000;

/// Where this frame's packet comes from: a server is read without waiting
/// once connected, and waited for while signing on; a demo gives its next
/// packet only once the game time has reached the newest message's time.
pub fn receive_plan(kind: ConnectionKind, state: ConnectionState, time: i64, msg_time: i64) -> (r: Receive)
    ensures
        kind == ConnectionKind::Server ==> r == (Receive::Server {
            timeout_ms: if state is Connected {
                None
            } else {
                Some(SIGNON_TIMEOUT_MS)
            },
        }),
        kind == ConnectionKind::Demo ==> r == (if time >= msg_time {
            Receive::DemoNext
        } else {
            Receive::Nothing
        }),
{
    match kind {
        ConnectionKind::Server => Receive::Server {
            timeout_ms: match state {
                ConnectionState::Connected => None,
                ConnectionState::SignOn(_) => Some(SIGNON_TIMEOUT_MS),
            },
        },
        ConnectionKind::Demo => if time >= msg_time {
            Receive::DemoNext
        } else {
            Receive::Nothing
        },
    }
}

/// The demo to play next when a connection ends with `status`: the front
/// of the queue, which is taken off it, when the demo asks for the next.
pub fn next_demo(status: ConnectionStatus, queue: &mut Vec<String>) -> (r: Option<String>)
    ensures
        status == ConnectionStatus::NextDemo && old(queue)@.len() > 0 ==> (r matches Some(d) && d
            == old(queue)@[0] && final(queue)@ == old(queue)@.drop_first()),
        !(status == ConnectionStatus::NextDemo && old(queue)@.len() > 0) ==> r is None
            && final(queue)@ == old(queue)@,
{
    if status == ConnectionStatus::NextDemo && queue.len() > 0 {
        let d = queue.remove(0);
        assert(queue@ =~= old(queue)@.drop_first());
        Some(d)
    } else {
        None
    }
}

/// When the next demo cannot be loaded: the error is printed to the
/// console as a line, and the demo queue is emptied, so that the client
/// disconnects.
pub fn demo_load_failed(queue: &mut Vec<String>, console: &mut ConsoleOutput, error: &str, time_ms: i64)
    ensures
        final(queue)@.len() == 0,
        final(console)@ == pushed(
            pushed(old(console)@, error@, time_ms, OutputType::Console),
            seq!['\n'],
            time_ms,
            OutputType::Console,
        ),
{
    console.println(error, time_ms);
    *queue = Vec::new();
}

/// What becomes of the connection resource when a connection ends.
#[derive(Clone, Copy, Debug, PartialEq, Eq, Structural)]
pub enum ConnectionChange {
    /// There was none and there is none.
    Keep,
    /// The old connection is replaced by the new one.
    Replace,
    /// The new connection is added.
    Insert,
    /// The old connection is removed.
    Remove,
}

/// Settles the connection after it ended: focus goes to the game if a new
/// connection (the next demo) starts, else to the console; a new connection
/// starts signing on, and with none left the state returns to not signed on.
pub fn settle_connection(
    had_conn: bool,
    new_conn: bool,
    focus: &mut InputFocus,
    state: &mut ConnectionState,
) -> (r: ConnectionChange)
    ensures
        *final(focus) == (if new_conn {
            InputFocus::Game
        } else {
            InputFocus::Console
        }),
        new_conn ==> *final(state) == ConnectionState::SignOn(SignOnStage::Prespawn) && r == (
        if had_conn {
            ConnectionChange::Replace
        } else {
            ConnectionChange::Insert
        }),
        !new_conn && had_conn ==> *final(state) == ConnectionState::SignOn(SignOnStage::Not) && r
            == ConnectionChange::Remove,
        !new_conn && !had_conn ==> *final(state) == *old(state) && r == ConnectionChange::Keep,
{
    *focus = if new_conn {
        InputFocus::Game
    } else {
        InputFocus::Console
    };
    if new_conn {
        *state = ConnectionState::SignOn(SignOnStage::Prespawn);
        if had_conn {
            ConnectionChange::Replace
        } else {
            ConnectionChange::Insert
        }
    } else if had_conn {
        *state = ConnectionState::SignOn(SignOnStage::Not);
        ConnectionChange::Remove
    } else {
        ConnectionChange::Keep
    }
}

/// A server's answer to a connection request.
pub enum ConnectResponse {
    Accept { port: i32 },
    Reject { message: String },
    /// Any other kind of answer.
    Other,
}

/// The port the game continues on, from the server's answer (if any) to
/// the connection request.
pub fn accepted_port(response: Option<ConnectResponse>) -> (r: Result<u16, ClientError>)
    ensures
        response is None ==> (r matches Err(ClientError::NoResponse)),
        response matches Some(ConnectResponse::Accept { port }) ==> if 0 <= port < 65535 {
            r == Ok::<u16, ClientError>(port as u16)
        } else {
            r matches Err(ClientError::InvalidConnectPort(p)) && p == port
        },
        response matches Some(ConnectResponse::Reject { message }) ==> (r matches Err(
            ClientError::ConnectionRejected(m),
        ) && m == message),
        response matches Some(ConnectResponse::Other) ==> (r matches Err(
            ClientError::InvalidConnectResponse,
        )),
{
    match response {
        None => Err(ClientError::NoResponse),
        Some(ConnectResponse::Accept { port }) => {
            if port < 0 || port >= 65535 {
                Err(ClientError::InvalidConnectPort(port))
            } else {
                Ok(port as u16)
            }
        },
        Some(ConnectResponse::Reject { message }) => Err(ClientError::ConnectionRejected(message)),
        Some(ConnectResponse::Other) => Err(ClientError::InvalidConnectResponse),
    }
}

/// What a frame does after reading the server's packet, when the
/// connection is kept.
#[derive(Clone, Copy, Debug, PartialEq, Eq, Structural)]
pub struct FrameSteps {
    /// Send the composed client messages to the server.
    pub send_composed: bool,
    /// Recompute the view and the colour shifts; the player has spawned.
    pub update_view: bool,
}

/// Decides the rest of a frame: composed messages go to a server when its
/// socket can send and there is something to send; the view is updated
/// once fully connected.
pub fn frame_steps(kind: ConnectionKind, can_send: bool, composed: usize, state: ConnectionState) -> (r:
    FrameSteps)
    ensures
        r.send_composed == (kind == ConnectionKind::Server && can_send && composed > 0),
        r.update_view == (state is Connected),
{
    FrameSteps {
        send_composed: kind == ConnectionKind::Server && can_send && composed > 0,
        update_view: match state {
            ConnectionState::Connected => true,
            ConnectionState::SignOn(_) => false,
        },
    }
}

} // verus!
