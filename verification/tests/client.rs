use richter::client::connection::{demo_load_failed, frame_steps, FrameSteps};
use richter::console::output::ConsoleOutput;
use richter::client::commands::{
    binding_text, cmd_bind, BindRequest, cmd_alias, cmd_connect, cmd_disconnect, cmd_echo, cmd_find, cmd_impulse, cmd_music,
    cmd_playdemo, cmd_reconnect, cmd_startdemos, cmd_toggleconsole, cmd_togglemenu, cmd_unbindall,
    demo_file, demo_file_in_demos, parse_u8, starts_with,
};
use richter::client::connection::{
    accepted_port, apply_server_cmd, apply_server_msg, handle_signon, next_demo, receive_plan, settle_connection,
    ClientAction, ClientError, ClientModel, ConnectResponse, ConnectionChange, ConnectionKind,
    ConnectionState, ConnectionStatus, Flow, IntermissionKind, PlayerColor, Receive, ServerCmd,
    SignOnStage, MAX_STATS, STAT_FOUND_SECRETS,
};
use richter::client::input::{console_visible, InputFocus};
use richter::console::registry::{CmdKind, Registry};
use richter::sound::MusicSource;

fn args(list: &[&str]) -> Vec<String> {
    list.iter().map(|s| s.to_string()).collect()
}

fn model() -> ClientModel {
    ClientModel {
        time: 1000,
        msg_times: (900, 800),
        intermission: None,
        completion_time: None,
        stats: vec![0; MAX_STATS],
        player_info: vec![None, None],
        entity_count: 10,
        sound_count: 4,
        static_entity_count: 0,
        view_entity: 1,
    }
}

fn run(
    c: &mut ClientModel,
    state: &mut ConnectionState,
    kind: ConnectionKind,
    cmd: ServerCmd,
) -> Result<(Flow, Vec<ClientAction>), ClientError> {
    apply_server_cmd(c, state, kind, cmd, None, false)
}

#[test]
fn toggling_the_console() {
    let mut f = InputFocus::Game;
    cmd_toggleconsole(true, &mut f);
    assert_eq!(f, InputFocus::Console);
    cmd_toggleconsole(true, &mut f);
    assert_eq!(f, InputFocus::Game);
    let mut f = InputFocus::Menu;
    cmd_toggleconsole(true, &mut f);
    assert_eq!(f, InputFocus::Console);
    let mut f = InputFocus::Console;
    cmd_toggleconsole(false, &mut f);
    assert_eq!(f, InputFocus::Menu);
    cmd_toggleconsole(false, &mut f);
    assert_eq!(f, InputFocus::Console);
    assert!(console_visible(InputFocus::Console));
    assert!(!console_visible(InputFocus::Menu));
    assert_eq!(InputFocus::default(), InputFocus::Console);
}

#[test]
fn toggling_the_menu() {
    let mut f = InputFocus::Game;
    cmd_togglemenu(true, &mut f);
    assert_eq!(f, InputFocus::Menu);
    cmd_togglemenu(true, &mut f);
    assert_eq!(f, InputFocus::Game);
    let mut f = InputFocus::Console;
    cmd_togglemenu(true, &mut f);
    assert_eq!(f, InputFocus::Menu);
    let mut f = InputFocus::Menu;
    cmd_togglemenu(false, &mut f);
    assert_eq!(f, InputFocus::Console);
    cmd_togglemenu(false, &mut f);
    assert_eq!(f, InputFocus::Menu);
}

#[test]
fn reconnect_and_disconnect() {
    let mut state = ConnectionState::Connected;
    let mut focus = InputFocus::Console;
    assert_eq!(cmd_reconnect(true, &mut state, &mut focus), "");
    assert_eq!(state, ConnectionState::SignOn(SignOnStage::Prespawn));
    assert_eq!(focus, InputFocus::Game);
    assert_eq!(cmd_reconnect(false, &mut state, &mut focus), "not connected");
    assert_eq!(cmd_disconnect(true, &mut focus), "");
    assert_eq!(focus, InputFocus::Console);
    assert_eq!(cmd_disconnect(false, &mut focus), "not connected");
}

#[test]
fn echo_joins_arguments() {
    assert_eq!(cmd_echo(&args(&[])), "");
    assert_eq!(cmd_echo(&args(&["hello", "world"])), "hello world");
}

#[test]
fn alias_command() {
    let mut reg = Registry::new();
    assert_eq!(cmd_alias(&mut reg, &args(&["go", "run", "extra"])), "");
    assert!(matches!(reg.get("go").unwrap().kind, CmdKind::Alias(ref t) if t == "run"));
    assert_eq!(cmd_alias(&mut reg, &args(&["only"])), "");
    // aliases are not listed, so the listing holds only the count
    assert_eq!(cmd_alias(&mut reg, &args(&[])), "0alias command(s)");
}

#[test]
fn find_lists_the_run_of_matching_names() {
    let names = args(&["alpha", "beta", "bet", "bravo", "betty"]);
    assert_eq!(cmd_find(&names, &args(&["be"])), "beta\nbet");
    assert_eq!(cmd_find(&names, &args(&["z"])), "");
    assert_eq!(cmd_find(&names, &args(&[])), "usage: find <cvar or command>");
    assert!(starts_with("beta", "be"));
    assert!(!starts_with("b", "be"));
}

#[test]
fn impulse_parsing() {
    assert_eq!(parse_u8("42"), Some(42));
    assert_eq!(parse_u8("+7"), Some(7));
    assert_eq!(parse_u8("007"), Some(7));
    assert_eq!(parse_u8("255"), Some(255));
    assert_eq!(parse_u8("256"), None);
    assert_eq!(parse_u8("-1"), None);
    assert_eq!(parse_u8("+"), None);
    assert_eq!(parse_u8(""), None);
    assert_eq!(parse_u8("1a"), None);
    assert_eq!(cmd_impulse(&args(&["10"])), Ok(10));
    assert_eq!(cmd_impulse(&args(&["x"])).unwrap_err(), "Impulse must be a number between 0 and 255");
    assert_eq!(cmd_impulse(&args(&[])).unwrap_err(), "usage: impulse [number]");
}

#[test]
fn usage_checks() {
    assert_eq!(cmd_unbindall(&args(&[])), Ok(()));
    assert_eq!(cmd_unbindall(&args(&["x"])).unwrap_err(), "unbindall: delete all keybindings");
    assert_eq!(cmd_connect(&args(&["host:26000"])).unwrap(), "host:26000");
    assert_eq!(cmd_connect(&args(&[])).unwrap_err(), "usage: connect <server_ip>:<server_port>");
    assert_eq!(cmd_playdemo(&args(&["demo1"])).unwrap(), "demo1");
    assert_eq!(cmd_playdemo(&args(&[])).unwrap_err(), "usage: playdemo [DEMOFILE]");
    let (first, queue) = cmd_startdemos(&args(&["d1", "d2", "d3"])).unwrap();
    assert_eq!(first, "d1");
    assert_eq!(queue, args(&["d2", "d3"]));
    assert_eq!(cmd_startdemos(&args(&[])).unwrap_err(), "usage: startdemos [DEMOS]");
    assert!(matches!(cmd_music(&args(&["track"])), Ok(MusicSource::Named(n)) if n == "track"));
    assert_eq!(cmd_music(&args(&[])).unwrap_err(), "usage: music [TRACKNAME]");
    assert_eq!(demo_file("demo1"), "demo1.dem");
    assert_eq!(demo_file_in_demos("demo1"), "demos/demo1.dem");
}

#[test]
fn sign_on_sequence() {
    let step = handle_signon(ConnectionState::SignOn(SignOnStage::Not), ConnectionKind::Server, SignOnStage::Prespawn);
    assert_eq!(step.next, Some(ConnectionState::SignOn(SignOnStage::Prespawn)));
    assert_eq!(step.send, args(&["prespawn"]));
    let step = handle_signon(ConnectionState::SignOn(SignOnStage::Prespawn), ConnectionKind::Server, SignOnStage::ClientInfo);
    assert_eq!(step.send, args(&["name \"UNNAMED\"\n", "color 0 0", "spawn "]));
    let step = handle_signon(ConnectionState::SignOn(SignOnStage::ClientInfo), ConnectionKind::Server, SignOnStage::Begin);
    assert_eq!(step.send, args(&["begin"]));
    let step = handle_signon(ConnectionState::SignOn(SignOnStage::Begin), ConnectionKind::Server, SignOnStage::Done);
    assert_eq!(step.next, Some(ConnectionState::Connected));
    assert!(step.restart_clock);
    assert!(step.send.is_empty());
    // demos send nothing
    let step = handle_signon(ConnectionState::SignOn(SignOnStage::Not), ConnectionKind::Demo, SignOnStage::Prespawn);
    assert!(step.send.is_empty());
    // once connected, sign-on messages are ignored
    let step = handle_signon(ConnectionState::Connected, ConnectionKind::Server, SignOnStage::Prespawn);
    assert_eq!(step.next, None);
    assert!(step.send.is_empty());
}

#[test]
fn server_commands_update_the_client() {
    let mut c = model();
    let mut s = ConnectionState::SignOn(SignOnStage::Begin);
    let (f, a) = run(&mut c, &mut s, ConnectionKind::Server, ServerCmd::FoundSecret).unwrap();
    assert_eq!(f, Flow::Continue);
    assert!(a.is_empty());
    assert_eq!(c.stats[STAT_FOUND_SECRETS], 1);
    run(&mut c, &mut s, ConnectionKind::Server, ServerCmd::UpdateStat { stat: 3, value: 42 }).unwrap();
    assert_eq!(c.stats[3], 42);
    run(&mut c, &mut s, ConnectionKind::Server, ServerCmd::Time { time_ms: 1100 }).unwrap();
    assert_eq!(c.msg_times, (1100, 900));
    run(&mut c, &mut s, ConnectionKind::Server, ServerCmd::Intermission).unwrap();
    assert!(matches!(c.intermission, Some(IntermissionKind::Intermission)));
    assert_eq!(c.completion_time, Some(1000));
    let (_, a) = run(&mut c, &mut s, ConnectionKind::Server, ServerCmd::Particle { color: 5, count: 255 }).unwrap();
    assert!(matches!(a[0], ClientAction::SpawnExplosion));
    let (_, a) = run(&mut c, &mut s, ConnectionKind::Server, ServerCmd::Particle { color: 5, count: 20 }).unwrap();
    assert!(matches!(a[0], ClientAction::SpawnImpact { color: 5, count: 20 }));
    let (_, a) = apply_server_cmd(&mut c, &mut s, ConnectionKind::Demo, ServerCmd::CdTrack { track: 2 }, Some(4), true).unwrap();
    assert!(matches!(a[0], ClientAction::StartMusic(MusicSource::TrackId(4))));
}

#[test]
fn server_commands_about_players() {
    let mut c = model();
    let mut s = ConnectionState::Connected;
    run(&mut c, &mut s, ConnectionKind::Server, ServerCmd::UpdateColors { player_id: 0, new_colors: PlayerColor { top: 1, bottom: 2 } }).unwrap();
    assert!(c.player_info[0].is_none());
    run(&mut c, &mut s, ConnectionKind::Server, ServerCmd::UpdateName { player_id: 0, new_name: "ranger".to_string() }).unwrap();
    let p = c.player_info[0].as_ref().unwrap();
    assert_eq!(p.name, "ranger");
    assert_eq!(p.colors, PlayerColor { top: 0, bottom: 0 });
    run(&mut c, &mut s, ConnectionKind::Server, ServerCmd::UpdateFrags { player_id: 0, new_frags: -3 }).unwrap();
    assert_eq!(c.player_info[0].as_ref().unwrap().frags, -3);
    run(&mut c, &mut s, ConnectionKind::Server, ServerCmd::UpdateName { player_id: 0, new_name: "x".to_string() }).unwrap();
    assert_eq!(c.player_info[0].as_ref().unwrap().frags, -3);
    assert!(matches!(
        run(&mut c, &mut s, ConnectionKind::Server, ServerCmd::UpdateFrags { player_id: 2, new_frags: 1 }),
        Err(ClientError::NoSuchPlayer(2))
    ));
}

#[test]
fn server_command_errors_and_flow() {
    let mut c = model();
    let mut s = ConnectionState::Connected;
    assert!(matches!(
        run(&mut c, &mut s, ConnectionKind::Server, ServerCmd::ServerInfo { protocol_version: 14, message: String::new() }),
        Err(ClientError::UnrecognizedProtocol(14))
    ));
    assert!(matches!(
        run(&mut c, &mut s, ConnectionKind::Server, ServerCmd::SetView { ent_id: -1 }),
        Err(ClientError::InvalidViewEntity(n)) if n == usize::MAX
    ));
    let (_, a) = run(&mut c, &mut s, ConnectionKind::Server, ServerCmd::SetView { ent_id: 0 }).unwrap();
    assert!(a.is_empty());
    let (_, a) = run(&mut c, &mut s, ConnectionKind::Server, ServerCmd::SetView { ent_id: 3 }).unwrap();
    assert!(matches!(a[0], ClientAction::SetViewEntity(3)));
    let (f, _) = run(&mut c, &mut s, ConnectionKind::Server, ServerCmd::Sound { entity_id: 50, channel: 0, sound_id: 9, volume: None }).unwrap();
    assert_eq!(f, Flow::Break);
    let (_, a) = run(&mut c, &mut s, ConnectionKind::Server, ServerCmd::Sound { entity_id: 2, channel: 1, sound_id: 3, volume: None }).unwrap();
    assert!(matches!(a[0], ClientAction::StartSound { entity: 2, channel: 1, sound: 3, volume: 255 }));
    let (f, _) = run(&mut c, &mut s, ConnectionKind::Demo, ServerCmd::Disconnect).unwrap();
    assert_eq!(f, Flow::Stop(ConnectionStatus::NextDemo));
    let (f, _) = run(&mut c, &mut s, ConnectionKind::Server, ServerCmd::Disconnect).unwrap();
    assert_eq!(f, Flow::Stop(ConnectionStatus::Disconnect));
    c.static_entity_count = 128;
    assert!(matches!(run(&mut c, &mut s, ConnectionKind::Server, ServerCmd::SpawnStatic), Err(ClientError::TooManyStaticEntities)));
    c.static_entity_count = 5;
    let (_, a) = run(&mut c, &mut s, ConnectionKind::Server, ServerCmd::SpawnStatic).unwrap();
    assert!(matches!(a[0], ClientAction::SpawnStatic(5)));
    assert_eq!(c.static_entity_count, 6);
    let (_, a) = run(&mut c, &mut s, ConnectionKind::Server, ServerCmd::SpawnStaticSound { sound_id: 7, volume: 1 }).unwrap();
    assert!(a.is_empty());
}

#[test]
fn server_info_prints_the_welcome() {
    let mut c = model();
    let mut s = ConnectionState::SignOn(SignOnStage::Not);
    let (_, a) = run(&mut c, &mut s, ConnectionKind::Server, ServerCmd::ServerInfo { protocol_version: 15, message: "Welcome".to_string() }).unwrap();
    assert_eq!(a.len(), 4);
    let divider = format!("\n\n\x1D{}\x1F\n\n", "\x1E".repeat(30));
    assert!(matches!(&a[0], ClientAction::PrintlnAlert(d) if *d == divider));
    assert!(matches!(&a[1], ClientAction::PrintlnAlert(m) if m == "Welcome"));
    assert!(matches!(&a[3], ClientAction::LoadServerInfo));
}

#[test]
fn fast_update_completes_sign_on() {
    let mut c = model();
    let mut s = ConnectionState::SignOn(SignOnStage::Begin);
    let (_, a) = apply_server_cmd(&mut c, &mut s, ConnectionKind::Demo, ServerCmd::FastUpdate { ent_id: 1 }, None, true).unwrap();
    assert_eq!(s, ConnectionState::Connected);
    assert!(matches!(a[1], ClientAction::UpdateEntity { ent_id: 1, patch_view_angles: true }));
    let (_, a) = run(&mut c, &mut s, ConnectionKind::Server, ServerCmd::SignOnStage { stage: SignOnStage::Prespawn }).unwrap();
    assert!(matches!(&a[0], ClientAction::SignOn(step) if step.next.is_none()));
    assert_eq!(s, ConnectionState::Connected);
}

#[test]
fn packets_and_connection_changes() {
    assert_eq!(receive_plan(ConnectionKind::Server, ConnectionState::Connected, 0, 0), Receive::Server { timeout_ms: None });
    assert_eq!(receive_plan(ConnectionKind::Server, ConnectionState::SignOn(SignOnStage::Not), 0, 0), Receive::Server { timeout_ms: Some(5000) });
    assert_eq!(receive_plan(ConnectionKind::Demo, ConnectionState::Connected, 10, 5), Receive::DemoNext);
    assert_eq!(receive_plan(ConnectionKind::Demo, ConnectionState::Connected, 4, 5), Receive::Nothing);
    let mut queue = args(&["a", "b"]);
    assert_eq!(next_demo(ConnectionStatus::NextDemo, &mut queue), Some("a".to_string()));
    assert_eq!(queue, args(&["b"]));
    assert_eq!(next_demo(ConnectionStatus::Disconnect, &mut queue), None);
    assert_eq!(queue, args(&["b"]));
    let mut focus = InputFocus::Game;
    let mut state = ConnectionState::Connected;
    assert_eq!(settle_connection(true, false, &mut focus, &mut state), ConnectionChange::Remove);
    assert_eq!(focus, InputFocus::Console);
    assert_eq!(state, ConnectionState::SignOn(SignOnStage::Not));
    assert_eq!(settle_connection(false, true, &mut focus, &mut state), ConnectionChange::Insert);
    assert_eq!(focus, InputFocus::Game);
    assert_eq!(state, ConnectionState::SignOn(SignOnStage::Prespawn));
    assert_eq!(settle_connection(true, true, &mut focus, &mut state), ConnectionChange::Replace);
    assert_eq!(settle_connection(false, false, &mut focus, &mut state), ConnectionChange::Keep);
}

#[test]
fn connect_responses() {
    assert_eq!(accepted_port(Some(ConnectResponse::Accept { port: 26001 })).unwrap(), 26001);
    assert!(matches!(accepted_port(Some(ConnectResponse::Accept { port: 65535 })), Err(ClientError::InvalidConnectPort(65535))));
    assert!(matches!(accepted_port(Some(ConnectResponse::Accept { port: -1 })), Err(ClientError::InvalidConnectPort(-1))));
    assert!(matches!(accepted_port(Some(ConnectResponse::Reject { message: "full".to_string() })), Err(ClientError::ConnectionRejected(m)) if m == "full"));
    assert!(matches!(accepted_port(Some(ConnectResponse::Other)), Err(ClientError::InvalidConnectResponse)));
    assert!(matches!(accepted_port(None), Err(ClientError::NoResponse)));
}

#[test]
fn rest_of_the_frame() {
    assert_eq!(
        frame_steps(ConnectionKind::Server, true, 3, ConnectionState::Connected),
        FrameSteps { send_composed: true, update_view: true }
    );
    assert_eq!(
        frame_steps(ConnectionKind::Server, true, 0, ConnectionState::SignOn(SignOnStage::Begin)),
        FrameSteps { send_composed: false, update_view: false }
    );
    assert!(!frame_steps(ConnectionKind::Demo, true, 3, ConnectionState::Connected).send_composed);
    assert!(!frame_steps(ConnectionKind::Server, false, 3, ConnectionState::Connected).send_composed);
}

#[test]
fn bind_reads_key_and_command() {
    let one = vec!["k".to_string()];
    assert!(matches!(cmd_bind(&one), BindRequest::Query(k) if k == "k"));
    let two = vec!["k".to_string(), "+jump".to_string()];
    assert!(matches!(cmd_bind(&two), BindRequest::Bind(k, c) if k == "k" && c == "+jump"));
    let none: Vec<String> = Vec::new();
    assert!(matches!(
        cmd_bind(&none),
        BindRequest::Usage(m) if m == "bind [key] (command): attach a command to a key"
    ));
    assert_eq!(binding_text("k", Some("+jump")), "\"k\" = \"+jump\"");
    assert_eq!(binding_text("k", None), "\"k\" is not bound");
}

#[test]
fn server_packets_apply_messages_in_order() {
    let mut c = model();
    let mut s = ConnectionState::Connected;
    // a demo with no packet left moves on to the next demo
    let (st, a) = apply_server_msg(&mut c, &mut s, ConnectionKind::Demo, None, None, false).unwrap();
    assert_eq!(st, ConnectionStatus::NextDemo);
    assert!(a.is_empty());
    // an empty packet keeps the connection
    let (st, a) = apply_server_msg(&mut c, &mut s, ConnectionKind::Server, Some(Vec::new()), None, false).unwrap();
    assert_eq!(st, ConnectionStatus::Maintain);
    assert!(a.is_empty());
    // messages after a disconnect are not applied
    let cmds = vec![
        ServerCmd::FoundSecret,
        ServerCmd::Disconnect,
        ServerCmd::FoundSecret,
    ];
    let (st, a) = apply_server_msg(&mut c, &mut s, ConnectionKind::Server, Some(cmds), None, false).unwrap();
    assert_eq!(st, ConnectionStatus::Disconnect);
    assert!(a.is_empty());
    assert_eq!(c.stats[STAT_FOUND_SECRETS], 1);
    // a demo disconnect plays the next demo
    let (st, _) =
        apply_server_msg(&mut c, &mut s, ConnectionKind::Demo, Some(vec![ServerCmd::Disconnect]), None, false).unwrap();
    assert_eq!(st, ConnectionStatus::NextDemo);
    // an error stops the packet; what came before it stays applied
    let cmds = vec![ServerCmd::Time { time_ms: 1200 }, ServerCmd::SetView { ent_id: -1 }, ServerCmd::FoundSecret];
    let r = apply_server_msg(&mut c, &mut s, ConnectionKind::Server, Some(cmds), None, false);
    assert!(matches!(r, Err(ClientError::InvalidViewEntity(_))));
    assert_eq!(c.msg_times, (1200, 900));
    assert_eq!(c.stats[STAT_FOUND_SECRETS], 1);
    // a read packet keeps the connection and collects the work in order
    let cmds = vec![ServerCmd::Print { text: "a".to_string() }, ServerCmd::Print { text: "b".to_string() }];
    let (st, a) = apply_server_msg(&mut c, &mut s, ConnectionKind::Server, Some(cmds), None, false).unwrap();
    assert_eq!(st, ConnectionStatus::Maintain);
    assert!(matches!(&a[..], [ClientAction::PrintAlert(x), ClientAction::PrintAlert(y)] if x == "a" && y == "b"));
}

#[test]
fn too_many_static_entities_leaves_the_count() {
    let mut c = model();
    c.static_entity_count = 128;
    let mut s = ConnectionState::Connected;
    let r = run(&mut c, &mut s, ConnectionKind::Server, ServerCmd::SpawnStatic);
    assert!(matches!(r, Err(ClientError::TooManyStaticEntities)));
    assert_eq!(c.static_entity_count, 128);
}

#[test]
fn failed_demo_load_prints_and_clears_the_queue() {
    let mut queue = vec!["demo2".to_string(), "demo3".to_string()];
    let mut out = ConsoleOutput::new();
    demo_load_failed(&mut queue, &mut out, "demo2.dem: not found", 50);
    assert!(queue.is_empty());
    let text: String = out.drain_unwritten().into_iter().map(|(_, t)| t.text).collect();
    assert_eq!(text, "demo2.dem: not found\n");
}

#[test]
fn a_failing_packet_gives_the_error_of_its_first_failing_message() {
    let mut c = model();
    let mut s = ConnectionState::Connected;
    let cmds = vec![
        ServerCmd::Print { text: "hi".to_string() },
        ServerCmd::ServerInfo { protocol_version: 14, message: "m".to_string() },
        ServerCmd::SetView { ent_id: -3 },
    ];
    let r = apply_server_msg(&mut c, &mut s, ConnectionKind::Server, Some(cmds), None, false);
    assert!(matches!(r, Err(ClientError::UnrecognizedProtocol(14))));
    let cmds = vec![ServerCmd::SpawnStatic, ServerCmd::Sound { entity_id: 99, channel: 0, sound_id: 0, volume: None }, ServerCmd::Damage];
    let (st, a) = apply_server_msg(&mut c, &mut s, ConnectionKind::Server, Some(cmds), None, false).unwrap();
    // an unknown entity's sound ends the packet; the damage after it is not applied
    assert_eq!(st, ConnectionStatus::Maintain);
    assert!(matches!(&a[..], [ClientAction::SpawnStatic(0)]));
}
