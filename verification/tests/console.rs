use richter::console::output::ExecResult;
use richter::console::cmd::{queue_extra_commands, bound_command, CmdName, KeyState, RunCmd, Trigger};
use richter::console::layout::{console_frame, layout_atlas_text, layout_output, AtlasCell, ConsoleDraw, GlyphPlacement};
use richter::console::output::{
    alert_update, update_render_console, ConsoleOutput, ConsoleText, OutputType, RenderConsoleOutput,
    Timestamp,
};
use richter::console::registry::{
    CmdKind, CommandImpl, ConsoleError, Cvar, ExecMessage, ExecStep, NameKind, Registry,
};
use richter::menu::SystemHandle;
use serde_lexpr::Value;

fn h(id: u64) -> SystemHandle {
    SystemHandle { id }
}

fn text(ty: OutputType, s: &str) -> ConsoleText {
    ConsoleText { output_type: ty, text: s.to_string() }
}

#[test]
fn console_output_collects_lines() {
    let mut out = ConsoleOutput::new();
    out.println("hello", 5);
    let chunks = out.drain_unwritten();
    assert_eq!(chunks.len(), 1);
    assert_eq!(chunks[0].0, Timestamp::new(5, 0));
    assert_eq!(chunks[0].1.output_type, OutputType::Console);
    assert_eq!(chunks[0].1.text, "hello\n");
    assert!(out.drain_unwritten().is_empty());
}

#[test]
fn console_output_flushes_on_type_change() {
    let mut out = ConsoleOutput::new();
    out.print("ab", 1);
    out.print_alert("cd", 2);
    let chunks = out.drain_unwritten();
    assert_eq!(chunks.len(), 1);
    // the finished piece carries the time of the write that ended it
    assert_eq!(chunks[0].0, Timestamp::new(2, 0));
    assert_eq!(chunks[0].1.text, "ab");
    out.println_alert("e", 3);
    let chunks = out.drain_unwritten();
    assert_eq!(chunks.len(), 1);
    assert_eq!(chunks[0].1.output_type, OutputType::Alert);
    assert_eq!(chunks[0].1.text, "cde\n");
    assert_eq!(chunks[0].0, Timestamp::new(3, 1));
}

#[test]
fn console_output_writing_appends_text() {
    let mut out = ConsoleOutput::new();
    out.print("one\ntw", 1);
    out.print("o\nthree", 2);
    let chunks = out.drain_unwritten();
    let joined: String = chunks.iter().map(|c| c.1.text.clone()).collect();
    assert_eq!(joined, "one\ntwo\n");
    out.println("", 3);
    let rest = out.drain_unwritten();
    assert_eq!(rest[0].1.text, "three\n");
}

#[test]
fn center_print_is_drained_once() {
    let mut out = ConsoleOutput::new();
    out.set_center_print("middle".to_string(), 7);
    let (ts, s) = out.drain_center_print().unwrap();
    assert_eq!(ts, Timestamp::new(7, 0));
    assert_eq!(s, "middle");
    assert!(out.drain_center_print().is_none());
}

#[test]
fn render_output_orders_by_timestamp() {
    let mut r = RenderConsoleOutput::new();
    r.insert(Timestamp::new(5, 0), text(OutputType::Console, "b"));
    r.insert(Timestamp::new(1, 0), text(OutputType::Console, "a"));
    r.insert(Timestamp::new(5, 1), text(OutputType::Alert, "c"));
    r.insert(Timestamp::new(5, 0), text(OutputType::Console, "B"));
    let order: Vec<&str> = r.text().iter().map(|c| c.1.text.as_str()).collect();
    assert_eq!(order, vec!["a", "B", "c"]);
    assert_eq!(r.all_text(), "aBc");
    let recent: Vec<&str> = r.recent(5).iter().map(|c| c.1.text.as_str()).collect();
    assert_eq!(recent, vec!["B", "c"]);
    assert!(r.recent(6).is_empty());
}

#[test]
fn render_output_center_print_since() {
    let mut r = RenderConsoleOutput::new();
    r.set_center_print(Timestamp::new(10, 0), "hi".to_string());
    assert_eq!(r.center_print(10), Some("hi"));
    assert_eq!(r.center_print(11), None);
}

#[test]
fn update_render_console_moves_text() {
    let mut out = ConsoleOutput::new();
    let mut r = RenderConsoleOutput::new();
    out.println("x", 1);
    out.set_center_print("c".to_string(), 2);
    update_render_console(&mut out, &mut r);
    assert_eq!(r.all_text(), "x\n");
    assert_eq!(r.center_print(0), Some("c"));
    assert!(out.drain_unwritten().is_empty());
    assert!(out.drain_center_print().is_none());
}

#[test]
fn alert_overlay_shows_recent_alerts() {
    let mut r = RenderConsoleOutput::new();
    r.insert(Timestamp::new(1, 0), text(OutputType::Alert, "old\n"));
    r.insert(Timestamp::new(5, 0), text(OutputType::Console, "console\n"));
    r.insert(Timestamp::new(6, 0), text(OutputType::Alert, "new\n"));
    r.insert(Timestamp::new(7, 0), text(OutputType::Alert, "newer\n"));
    let (first, s) = alert_update(&r, 3, 10, None).unwrap();
    assert_eq!(first, Some(6));
    assert_eq!(s, "new\nnewer\n");
    // unchanged overlay is not rewritten
    assert!(alert_update(&r, 3, 10, Some(6)).is_none());
    // at most max_lines pieces
    let (_, s) = alert_update(&r, 0, 1, None).unwrap();
    assert_eq!(s, "old\n");
    // nothing recent: the overlay is cleared once
    let (first, s) = alert_update(&r, 100, 10, Some(6)).unwrap();
    assert_eq!(first, None);
    assert_eq!(s, "");
}

#[test]
fn registry_cvars() {
    let mut reg = Registry::new();
    reg.cvar("sv_gravity".to_string(), Cvar::new("800"), "Gravity strength".to_string());
    assert_eq!(*reg.cvar_value("sv_gravity").unwrap(), Value::from(800));
    match reg.execute_step("sv_gravity", None, &vec![]) {
        ExecStep::Print(m @ ExecMessage::ShowCvar { .. }) => {
            assert_eq!(m.text(), "\"sv_gravity\" is \"800\"");
        }
        other => panic!("unexpected {:?}", other),
    }
    assert!(matches!(reg.execute_step("sv_gravity", None, &vec!["600".to_string()]), ExecStep::Done));
    assert_eq!(*reg.cvar_value("sv_gravity").unwrap(), Value::from(600));
    let old = reg.set_cvar("sv_gravity", "700").unwrap();
    assert_eq!(old, Value::from(600));
    assert_eq!(*reg.get_cvar("sv_gravity").unwrap().value(), Value::from(700));
    match reg.execute_step("sv_gravity", None, &vec!["1".to_string(), "2".to_string()]) {
        ExecStep::Print(m) => assert_eq!(m.text(), "Too many arguments, expected 1"),
        other => panic!("unexpected {:?}", other),
    }
    match reg.execute_step("sv_gravity", Some(Trigger::Positive), &vec![]) {
        ExecStep::Print(m) => assert_eq!(m.text(), "sv_gravity is a cvar"),
        other => panic!("unexpected {:?}", other),
    }
}

#[test]
fn registry_cvar_errors() {
    let mut reg = Registry::new();
    reg.cvar("fov".to_string(), Cvar::new("90"), String::new());
    assert!(matches!(reg.set_cvar("fov", "("), Err(ConsoleError::CvarParseInvalid)));
    assert!(matches!(reg.set_cvar("nope", "1"), Err(ConsoleError::NoSuchCvar(n)) if n == "nope"));
    assert!(matches!(reg.cvar_value("nope"), Err(ConsoleError::NoSuchCvar(_))));
    assert!(Cvar::try_new("(").is_none());
    let c = Cvar::try_new("1").unwrap().archive().notify();
    assert!(c.archive && c.notify && c.value.is_none());
    assert_eq!(*c.value(), Value::from(1));
    // a text that is not an S-expression value is kept as a string
    assert!(matches!(reg.execute_step("fov", None, &vec!["(".to_string()]), ExecStep::Done));
    assert_eq!(*reg.cvar_value("fov").unwrap(), Value::string("("));
}

#[test]
fn registry_aliases_and_commands() {
    let mut reg = Registry::new();
    reg.alias("go".to_string(), "run".to_string());
    assert!(matches!(reg.execute_step("go", None, &vec![]), ExecStep::Redirect(t) if t == "run"));
    reg.command("run".to_string(), h(3), "help".to_string()).unwrap();
    assert!(matches!(reg.execute_step("run", None, &vec![]), ExecStep::RunBuiltin(x) if x == h(3)));
    match reg.execute_step("run", Some(Trigger::Negative), &vec![]) {
        ExecStep::Print(m) => assert_eq!(m.text(), "run is a command, and cannot be invoked with +/-"),
        other => panic!("unexpected {:?}", other),
    }
    match reg.execute_step("missing", None, &vec![]) {
        ExecStep::Print(m) => assert_eq!(m.text(), "Unrecognized command \"missing\""),
        other => panic!("unexpected {:?}", other),
    }
    assert!(reg.contains("go"));
    assert!(!reg.contains("missing"));
}

#[test]
fn registry_actions_track_key_state() {
    let mut reg = Registry::new();
    reg.command("attack".to_string(), h(1), String::new()).unwrap();
    reg.get_mut("attack").unwrap().kind = CmdKind::Action { system: Some(h(8)), state: Trigger::Negative };
    assert!(!reg.is_pressed("attack"));
    assert!(matches!(
        reg.execute_step("attack", Some(Trigger::Positive), &vec![]),
        ExecStep::RunAction(x, Trigger::Positive) if x == h(8)
    ));
    assert!(reg.is_pressed("attack"));
    // the same edge again does nothing
    assert!(matches!(reg.execute_step("attack", Some(Trigger::Positive), &vec![]), ExecStep::Done));
    match reg.execute_step("attack", None, &vec![]) {
        ExecStep::Print(m) => assert_eq!(m.text(), "attack is an action, and must be invoked with +/-"),
        other => panic!("unexpected {:?}", other),
    }
}

#[test]
fn registry_define_then_remove_restores() {
    let mut reg = Registry::new();
    reg.command("x".to_string(), h(1), String::new()).unwrap();
    reg.alias("x".to_string(), "y".to_string());
    assert!(matches!(reg.get("x").unwrap().kind, CmdKind::Alias(ref t) if t == "y"));
    reg.remove("x").unwrap();
    assert!(matches!(reg.get("x").unwrap().kind, CmdKind::Builtin(b) if b == h(1)));
    assert!(matches!(reg.remove_alias("x"), Err(ConsoleError::NoSuchAlias(n)) if n == "x"));
    reg.remove("x").unwrap();
    assert!(reg.get("x").is_none());
    assert!(matches!(reg.remove("x"), Err(ConsoleError::NoSuchCommand(n)) if n == "x"));
    reg.alias("z".to_string(), "w".to_string());
    reg.remove_alias("z").unwrap();
    assert!(!reg.contains("z"));
}

#[test]
fn registry_name_listings() {
    let mut reg = Registry::new();
    reg.alias("a".to_string(), "b".to_string());
    reg.cvar("c".to_string(), Cvar::new("1"), String::new());
    // names are not listed for enumeration when they are registered
    assert!(reg.all_names().is_empty());
    assert!(reg.aliases().is_empty());
    assert!(reg.cmd_names().is_empty());
    assert!(reg.alias_names().is_empty());
    assert!(reg.cvar_names().is_empty());
    assert!(reg.names_of_kind(NameKind::Cvar).is_empty());
    let fields = vec!["c".to_string(), "a".to_string(), "d".to_string()];
    assert_eq!(reg.cvar_fields(&fields), vec![0]);
}

#[test]
fn command_edges() {
    let plus = RunCmd(CmdName { trigger: Some(Trigger::Positive), name: "forward".to_string() }, vec![]);
    let released = bound_command(&plus, KeyState::Released).unwrap();
    assert_eq!(released.0.trigger, Some(Trigger::Negative));
    assert_eq!(released.0.name, "forward");
    let pressed = bound_command(&plus, KeyState::Pressed).unwrap();
    assert_eq!(pressed.0.trigger, Some(Trigger::Positive));
    let plain = RunCmd::named("echo".to_string());
    assert!(bound_command(&plain, KeyState::Released).is_none());
    assert!(plain.clone().invert().is_none());
    // inverting twice gives back the edge
    let twice = plus.clone().invert().unwrap().invert().unwrap();
    assert_eq!(twice.0.trigger, Some(Trigger::Positive));
    assert_eq!(Trigger::Positive.inverted().inverted(), Trigger::Positive);
    let n: CmdName = CmdName::from("quit".to_string());
    assert_eq!(n.trigger, None);
    assert_eq!(n.into_owned().name, "quit");
}

#[test]
fn output_glyph_layout() {
    let chunks = vec!["ab\nc".to_string(), "\u{7}d\u{e9}".to_string()];
    let glyphs = layout_output(&chunks);
    assert_eq!(
        glyphs,
        vec![
            GlyphPlacement { glyph: b'a', x_ofs: 9, y_ofs: 8 },
            GlyphPlacement { glyph: b'b', x_ofs: 17, y_ofs: 8 },
            GlyphPlacement { glyph: b'c', x_ofs: 9, y_ofs: 16 },
            GlyphPlacement { glyph: b'd', x_ofs: 17, y_ofs: 16 },
        ]
    );
}

#[test]
fn output_glyph_layout_stops_past_line_100() {
    let many = vec!["\n".repeat(100), "x".to_string(), "\n".to_string(), "y".to_string()];
    let glyphs = layout_output(&many);
    assert_eq!(glyphs.len(), 1);
    assert_eq!(glyphs[0], GlyphPlacement { glyph: b'x', x_ofs: 9, y_ofs: 101 * 8 });
}

#[test]
fn atlas_text_rows() {
    let rows = layout_atlas_text("a b\r\nc\n");
    assert_eq!(
        rows,
        vec![
            vec![AtlasCell::Glyph('a' as u32), AtlasCell::Blank, AtlasCell::Glyph('b' as u32)],
            vec![AtlasCell::Glyph('c' as u32)],
        ]
    );
    assert!(layout_atlas_text("").is_empty());
    assert_eq!(layout_atlas_text("\n\nx"), vec![vec![], vec![], vec![AtlasCell::Glyph('x' as u32)]]);
}

#[test]
fn commands_refuse_taken_names() {
    let mut reg = Registry::new();
    assert!(reg.command("a".to_string(), h(1), "first".to_string()).is_ok());
    let r = reg.command("a".to_string(), h(2), "second".to_string());
    assert!(matches!(r, Err(ConsoleError::CmdError(m)) if m == "Command already exists: a"));
    let CommandImpl { kind, help } = reg.get("a").unwrap();
    assert!(matches!(kind, CmdKind::Builtin(x) if *x == h(1)));
    assert_eq!(help, "first");
}

#[test]
fn command_texts_and_results() {
    let n = CmdName { trigger: Some(Trigger::Negative), name: "jump".to_string() };
    assert_eq!(n.text(), "-jump");
    let n = CmdName { trigger: Some(Trigger::Positive), name: "jump".to_string() };
    assert_eq!(n.text(), "+jump");
    assert_eq!(CmdName::from("quit".to_string()).text(), "quit");
    let r = ExecResult::text("done".to_string());
    assert_eq!(r.output, "done");
    assert!(r.extra_commands.is_empty());
    assert_eq!(r.output_ty, OutputType::Console);
    let d = ExecResult::default();
    assert!(d.output.is_empty());
    assert_eq!(OutputType::default(), OutputType::Console);
    assert!(Cvar::default().value.is_none());
}

#[test]
fn console_frame_draws_background_version_and_input() {
    let f = console_frame("richter", "0.1.0", "map e1m1");
    assert_eq!(f[0], ConsoleDraw::Background);
    assert_eq!(
        f[1],
        ConsoleDraw::Text { text: "richter 0.1.0".to_string(), x_ofs: 0, y_ofs: 0, right_aligned: true }
    );
    assert_eq!(f[2], ConsoleDraw::Glyph { glyph: b']', x_ofs: 8, y_ofs: 0 });
    assert_eq!(
        f[3],
        ConsoleDraw::Text { text: "map e1m1".to_string(), x_ofs: 8, y_ofs: 0, right_aligned: false }
    );
}

#[test]
fn showing_a_cvar_prints_its_value() {
    let m = ExecMessage::ShowCvar { name: "fov".to_string(), value: Value::from(90) };
    assert_eq!(m.text(), "\"fov\" is \"90\"");
}

#[test]
fn drains_take_the_written_text_once() {
    let mut out = ConsoleOutput::new();
    out.print("ab\nc", 1);
    let first: String = out.drain_unwritten().into_iter().map(|(_, t)| t.text).collect();
    assert_eq!(first, "ab\n");
    out.print("d\n", 2);
    let second: String = out.drain_unwritten().into_iter().map(|(_, t)| t.text).collect();
    assert_eq!(second, "cd\n");
    assert!(out.drain_unwritten().is_empty());
}

#[test]
fn extra_commands_go_to_the_front_in_reverse() {
    let mut queue = vec![RunCmd::named("later".to_string())];
    let extra = vec![RunCmd::named("a".to_string()), RunCmd::named("b".to_string())];
    queue_extra_commands(&mut queue, extra);
    let names: Vec<String> = queue.iter().map(|RunCmd(n, _)| n.name.clone()).collect();
    assert_eq!(names, vec!["b", "a", "later"]);
}
