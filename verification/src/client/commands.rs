//! Console commands of the client: their argument checks, their effect on
//! input focus and connection state, and the text they print.

use vstd::prelude::*;

use super::connection::{ConnectionState, SignOnStage};
use super::input::InputFocus;
use crate::console::registry::{AliasInfo, CmdKind, CommandImpl, Registry};
use crate::menu::SystemHandle;
use crate::sound::MusicSource;
use crate::text::{chars_of, decimal, decimal_chars, join, join_range, push_str_chars, string_of, views};

verus! {

/// Focus after `toggleconsole`: connected, the console toggles with the
/// game; disconnected, it toggles with the menu.
pub open spec fn toggled_console(connected: bool, focus: InputFocus) -> InputFocus {
    if connected {
        match focus {
            InputFocus::Menu | InputFocus::Game => InputFocus::Console,
            InputFocus::Console => InputFocus::Game,
        }
    } else {
        match focus {
            InputFocus::Console => InputFocus::Menu,
            _ => InputFocus::Console,
        }
    }
}

/// Focus after `togglemenu`: connected, the menu toggles with the game;
/// disconnected, it toggles with the console.
pub open spec fn toggled_menu(connected: bool, focus: InputFocus) -> InputFocus {
    if connected {
        match focus {
            InputFocus::Game | InputFocus::Console => InputFocus::Menu,
            InputFocus::Menu => InputFocus::Game,
        }
    } else {
        match focus {
            InputFocus::Console => InputFocus::Menu,
            _ => InputFocus::Console,
        }
    }
}

/// `toggleconsole`. The game cannot have focus while disconnected.
pub fn cmd_toggleconsole(connected: bool, focus: &mut InputFocus)
    requires
        connected || *old(focus) != InputFocus::Game,
    ensures
        *final(focus) == toggled_console(connected, *old(focus)),
{
    let next = if connected {
        match *focus {
            InputFocus::Menu | InputFocus::Game => InputFocus::Console,
            InputFocus::Console => InputFocus::Game,
        }
    } else {
        match *focus {
            InputFocus::Console => InputFocus::Menu,
            _ => InputFocus::Console,
        }
    };
    *focus = next;
}

/// `togglemenu`. The game cannot have focus while disconnected.
pub fn cmd_togglemenu(connected: bool, focus: &mut InputFocus)
    requires
        connected || *old(focus) != InputFocus::Game,
    ensures
        *final(focus) == toggled_menu(connected, *old(focus)),
{
    let next = if connected {
        match *focus {
            InputFocus::Game | InputFocus::Console => InputFocus::Menu,
            InputFocus::Menu => InputFocus::Game,
        }
    } else {
        match *focus {
            InputFocus::Console => InputFocus::Menu,
            _ => InputFocus::Console,
        }
    };
    *focus = next;
}

/// `reconnect`: restarts the sign-on of the current connection and gives
/// the game focus; refused when not connected.
pub fn cmd_reconnect(connected: bool, state: &mut ConnectionState, focus: &mut InputFocus) -> (r: String)
    ensures
        connected ==> *final(state) == ConnectionState::SignOn(SignOnStage::Prespawn)
            && *final(focus) == InputFocus::Game && r@ == Seq::<char>::empty(),
        !connected ==> *final(state) == *old(state) && *final(focus) == *old(focus) && r@
            == "not connected"@,
{
    if connected {
        *state = ConnectionState::SignOn(SignOnStage::Prespawn);
        *focus = InputFocus::Game;
        String::new()
    } else {
        String::from_str("not connected")
    }
}

/// `disconnect`: the connection is dropped (when `r` is empty) and the
/// console gets focus; refused when not connected.
pub fn cmd_disconnect(connected: bool, focus: &mut InputFocus) -> (r: String)
    ensures
        connected ==> *final(focus) == InputFocus::Console && r@ == Seq::<char>::empty(),
        !connected ==> *final(focus) == *old(focus) && r@ == "not connected"@,
{
    if connected {
        *focus = InputFocus::Console;
        String::new()
    } else {
        String::from_str("not connected")
    }
}

/// `echo`: the arguments separated by spaces.
pub fn cmd_echo(args: &[String]) -> (r: String)
    ensures
        r@ == join(views(args@), " "@),
{
    let r = join_range(args, 0, args.len(), " ");
    assert(args@.subrange(0, args@.len() as int) =~= args@);
    r
}

/// The line the alias listing shows for one alias.
pub open spec fn alias_line(a: AliasInfo) -> Seq<char> {
    "    "@ + a.name@ + ": "@ + a.target@ + "\n"@
}

/// The alias listing: a line for each alias, then how many there are.
pub open spec fn alias_listing(aliases: Seq<AliasInfo>) -> Seq<char>
    decreases aliases.len(),
{
    if aliases.len() == 0 {
        Seq::empty()
    } else {
        alias_listing(aliases.drop_last()) + alias_line(aliases.last())
    }
}

/// `alias`: with no arguments, lists the aliases; with two or more, makes
/// the first an alias of the second; with one, does nothing.
pub fn cmd_alias(registry: &mut Registry, args: &[String]) -> (r: String)
    requires
        old(registry).wf(),
    ensures
        final(registry).wf(),
        args@.len() == 0 ==> *final(registry) == *old(registry) && exists|aliases: Seq<AliasInfo>|
            aliases.map_values(|a: AliasInfo| (a.name@, a.target@, a.help@)) == old(
                registry,
            ).spec_names().filter(
                |n: Seq<char>| old(registry).names_kind(n, crate::console::registry::NameKind::Alias),
            ).map_values(|n: Seq<char>| old(registry).alias_entry(n)) && r@ == alias_listing(
                aliases,
            ) + decimal(aliases.len()) + "alias command(s)"@,
        args@.len() == 1 ==> *final(registry) == *old(registry) && r@ == Seq::<char>::empty(),
        args@.len() >= 2 ==> r@ == Seq::<char>::empty() && final(registry).spec_names() == old(
            registry,
        ).spec_names() && exists|c: crate::console::registry::CommandImpl|
            #![trigger Registry::with_definition(old(registry).commands(), args@[0]@, c)]
            c.kind matches crate::console::registry::CmdKind::Alias(t) && t@ == args@[1]@
                && c.help@ == Seq::<char>::empty() && final(registry).commands()
                == Registry::with_definition(old(registry).commands(), args@[0]@, c),
{
    if args.len() == 0 {
        let aliases = registry.aliases();
        let mut out: Vec<char> = Vec::new();
        let mut i: usize = 0;
        while i < aliases.len()
            invariant
                i <= aliases@.len(),
                out@ == alias_listing(aliases@.take(i as int)),
            decreases aliases@.len() - i,
        {
            let a = &aliases[i];
            let ghost before = out@;
            push_str_chars(&mut out, "    ");
            push_str_chars(&mut out, a.name.as_str());
            push_str_chars(&mut out, ": ");
            push_str_chars(&mut out, a.target.as_str());
            push_str_chars(&mut out, "\n");
            assert(aliases@.take(i + 1).drop_last() =~= aliases@.take(i as int));
            assert(out@ =~= before + alias_line(aliases@[i as int]));
            i = i + 1;
        }
        assert(aliases@.take(i as int) =~= aliases@);
        let count = decimal_chars(aliases.len());
        let mut k: usize = 0;
        let ghost listing = out@;
        while k < count.len()
            invariant
                k <= count@.len(),
                out@ == listing + count@.take(k as int),
            decreases count@.len() - k,
        {
            out.push(count[k]);
            assert(out@ =~= listing + count@.take(k + 1));
            k = k + 1;
        }
        assert(count@.take(k as int) =~= count@);
        push_str_chars(&mut out, "alias command(s)");
        string_of(out.as_slice())
    } else if args.len() >= 2 {
        registry.alias(args[0].clone(), args[1].clone());
        String::new()
    } else {
        String::new()
    }
}

/// The range of `names` that `find` lists: from the first name that
/// starts with `prefix`, up to the first after it that does not.
pub open spec fn find_range(names: Seq<Seq<char>>, prefix: Seq<char>, start: int, end: int) -> bool {
    &&& 0 <= start <= end <= names.len()
    &&& forall|j: int| 0 <= j < start ==> !prefix.is_prefix_of(#[trigger] names[j])
    &&& start < names.len() ==> prefix.is_prefix_of(names[start])
    &&& forall|j: int| start <= j < end ==> prefix.is_prefix_of(#[trigger] names[j])
    &&& end < names.len() ==> !prefix.is_prefix_of(names[end])
}

/// Whether `name` starts with `prefix`.
pub fn starts_with(name: &str, prefix: &str) -> (r: bool)
    ensures
        r == prefix@.is_prefix_of(name@),
{
    let n = chars_of(name);
    let p = chars_of(prefix);
    if p.len() > n.len() {
        return false;
    }
    let mut i: usize = 0;
    while i < p.len()
        invariant
            i <= p@.len() <= n@.len(),
            n@ == name@,
            p@ == prefix@,
            forall|j: int| 0 <= j < i ==> p@[j] == n@[j],
        decreases p@.len() - i,
    {
        if p[i] != n[i] {
            assert(n@.subrange(0, p@.len() as int)[i as int] != p@[i as int]);
            return false;
        }
        i = i + 1;
    }
    assert(n@.subrange(0, p@.len() as int) =~= p@);
    true
}

/// `find`: the run of names starting with the argument, one per line.
pub fn cmd_find(names: &[String], args: &[String]) -> (r: String)
    ensures
        args@.len() == 1 ==> exists|start: int, end: int|
            find_range(views(names@), args@[0]@, start, end) && r@ == join(
                views(names@.subrange(start, end)),
                "\n"@,
            ),
        args@.len() != 1 ==> r@ == "usage: find <cvar or command>"@,
{
    if args.len() != 1 {
        return String::from_str("usage: find <cvar or command>");
    }
    let prefix = args[0].as_str();
    let ghost vs = views(names@);
    let mut start: usize = 0;
    while start < names.len() && !starts_with(names[start].as_str(), prefix)
        invariant
            start <= names@.len(),
            vs == views(names@),
            forall|j: int| 0 <= j < start ==> !prefix@.is_prefix_of(#[trigger] vs[j]),
        decreases names@.len() - start,
    {
        start = start + 1;
    }
    let mut end: usize = start;
    while end < names.len() && starts_with(names[end].as_str(), prefix)
        invariant
            start <= end <= names@.len(),
            vs == views(names@),
            forall|j: int| start <= j < end ==> prefix@.is_prefix_of(#[trigger] vs[j]),
        decreases names@.len() - end,
    {
        end = end + 1;
    }
    let r = join_range(names, start, end, "\n");
    assert(find_range(vs, prefix@, start as int, end as int));
    r
}

/// The decimal value of a string of ASCII digits.
pub open spec fn digits_value(s: Seq<char>) -> int
    decreases s.len(),
{
    if s.len() == 0 {
        0
    } else {
        digits_value(s.drop_last()) * 10 + (s.last() as int - '0' as int)
    }
}

/// Whether every character is an ASCII digit.
pub open spec fn all_digits(s: Seq<char>) -> bool {
    forall|i: int| 0 <= i < s.len() ==> '0' <= #[trigger] s[i] <= '9'
}

/// The digits of a number text: all of it, or all after a leading `+`.
pub open spec fn number_digits(s: Seq<char>) -> Seq<char> {
    if s.len() > 0 && s[0] == '+' {
        s.drop_first()
    } else {
        s
    }
}

/// What parsing a text as a `u8` gives: some value for one or more ASCII
/// digits, optionally after a `+`, whose value fits in a byte.
pub open spec fn parse_u8_spec(s: Seq<char>) -> Option<u8> {
    let d = number_digits(s);
    if d.len() > 0 && all_digits(d) && digits_value(d) <= 255 {
        Some(digits_value(d) as u8)
    } else {
        None
    }
}

proof fn lemma_digits_value_grows(s: Seq<char>, i: int)
    requires
        all_digits(s),
        0 <= i <= s.len(),
    ensures
        0 <= digits_value(s.take(i)) <= digits_value(s),
    decreases s.len() - i,
{
    if i < s.len() {
        lemma_digits_value_grows(s, i + 1);
        assert(s.take(i + 1).drop_last() =~= s.take(i));
    } else {
        assert(s.take(i) =~= s);
    }
    lemma_digits_value_nonneg(s.take(i));
}

proof fn lemma_digits_value_nonneg(s: Seq<char>)
    requires
        all_digits(s),
    ensures
        digits_value(s) >= 0,
    decreases s.len(),
{
    if s.len() > 0 {
        lemma_digits_value_nonneg(s.drop_last());
    }
}

/// Parses a byte value as `u8::from_str` does.
pub fn parse_u8(s: &str) -> (r: Option<u8>)
    ensures
        r == parse_u8_spec(s@),
{
    let chars = chars_of(s);
    let mut i: usize = 0;
    if chars.len() > 0 && chars[0] == '+' {
        i = 1;
    }
    let ghost d = number_digits(s@);
    let ghost first = i;
    assert(d =~= chars@.subrange(i as int, chars@.len() as int));
    if i >= chars.len() {
        return None;
    }
    let mut value: u32 = 0;
    while i < chars.len()
        invariant
            first <= i <= chars@.len(),
            chars@ == s@,
            d == number_digits(s@),
            d == chars@.subrange(first as int, chars@.len() as int),
            all_digits(d.take(i - first)),
            value == digits_value(d.take(i - first)),
            value <= 255,
        decreases chars@.len() - i,
    {
        let c = chars[i];
        if c < '0' || c > '9' {
            assert(0 <= i - first < d.len());
            assert(d[i - first] == c);
            assert(!all_digits(d));
            assert(d.len() > 0);
            return None;
        }
        let ghost prefix = d.take(i + 1 - first);
        assert(prefix.drop_last() =~= d.take(i - first));
        assert(prefix.last() == c);
        let digit = (c as u32) - ('0' as u32);
        let next = value * 10 + digit;
        assert(digits_value(prefix) == next);
        assert(all_digits(prefix));
        if next > 255 {
            proof {
                if all_digits(d) {
                    lemma_digits_value_grows(d, i + 1 - first);
                    assert(d.take(d.len() as int) =~= d);
                }
            }
            return None;
        }
        value = next;
        i = i + 1;
    }
    assert(d.take(i - first) =~= d);
    Some(value as u8)
}

/// `impulse`: the impulse number to send, or the text to print.
pub fn cmd_impulse(args: &[String]) -> (r: Result<u8, String>)
    ensures
        (args@.len() == 1 && parse_u8_spec(args@[0]@) is Some) ==> r == Ok::<u8, String>(
            parse_u8_spec(args@[0]@).unwrap(),
        ),
        args@.len() == 1 && parse_u8_spec(args@[0]@) is None ==> (r matches Err(m) && m@
            == "Impulse must be a number between 0 and 255"@),
        args@.len() != 1 ==> (r matches Err(m) && m@ == "usage: impulse [number]"@),
{
    if args.len() == 1 {
        match parse_u8(args[0].as_str()) {
            Some(i) => Ok(i),
            None => Err(String::from_str("Impulse must be a number between 0 and 255")),
        }
    } else {
        Err(String::from_str("usage: impulse [number]"))
    }
}

/// `unbindall`: whether to drop all key bindings, or the text to print.
pub fn cmd_unbindall(args: &[String]) -> (r: Result<(), String>)
    ensures
        args@.len() == 0 ==> r is Ok,
        args@.len() != 0 ==> (r matches Err(m) && m@ == "unbindall: delete all keybindings"@),
{
    if args.len() == 0 {
        Ok(())
    } else {
        Err(String::from_str("unbindall: delete all keybindings"))
    }
}

/// What `bind` was asked for.
#[derive(Debug)]
pub enum BindRequest {
    /// Say what the key is bound to.
    Query(String),
    /// Bind the key to the command.
    Bind(String, String),
    /// Print the usage text.
    Usage(String),
}

/// Reads the arguments of `bind`: a key alone asks what it is bound to; a
/// key and a command bind them.
pub fn cmd_bind(args: &[String]) -> (r: BindRequest)
    ensures
        args@.len() == 1 ==> (r matches BindRequest::Query(k) && k@ == args@[0]@),
        args@.len() == 2 ==> (r matches BindRequest::Bind(k, c) && k@ == args@[0]@ && c@
            == args@[1]@),
        args@.len() != 1 && args@.len() != 2 ==> (r matches BindRequest::Usage(m) && m@
            == "bind [key] (command): attach a command to a key"@),
{
    if args.len() == 1 {
        BindRequest::Query(args[0].clone())
    } else if args.len() == 2 {
        BindRequest::Bind(args[0].clone(), args[1].clone())
    } else {
        BindRequest::Usage(String::from_str("bind [key] (command): attach a command to a key"))
    }
}

/// What `bind` says of a key: what it is bound to, or that it is not bound.
pub fn binding_text(key: &str, binding: Option<&str>) -> (r: String)
    ensures
        binding matches Some(b) ==> r@ == "\""@ + key@ + "\" = \""@ + b@ + "\""@,
        binding is None ==> r@ == "\""@ + key@ + "\" is not bound"@,
{
    let mut s = String::from_str("\"");
    s.append(key);
    match binding {
        Some(b) => {
            s.append("\" = \"");
            s.append(b);
            s.append("\"");
        },
        None => {
            s.append("\" is not bound");
        },
    }
    s
}

/// `connect`: the server address to connect to, or the usage text.
pub fn cmd_connect(args: &[String]) -> (r: Result<String, String>)
    ensures
        args@.len() >= 1 ==> (r matches Ok(a) && a@ == args@[0]@),
        args@.len() < 1 ==> (r matches Err(m) && m@ == "usage: connect <server_ip>:<server_port>"@),
{
    if args.len() < 1 {
        Err(String::from_str("usage: connect <server_ip>:<server_port>"))
    } else {
        Ok(args[0].clone())
    }
}

/// The file a demo is played from.
pub fn demo_file(demo: &str) -> (r: String)
    ensures
        r@ == demo@ + ".dem"@,
{
    let mut s = String::from_str(demo);
    s.append(".dem");
    s
}

/// The file a demo is played from when it is not at the top of the tree.
pub fn demo_file_in_demos(demo: &str) -> (r: String)
    ensures
        r@ == "demos/"@ + demo@ + ".dem"@,
{
    let mut s = String::from_str("demos/");
    s.append(demo);
    s.append(".dem");
    s
}

/// `playdemo`: the demo to play, or the usage text.
pub fn cmd_playdemo(args: &[String]) -> (r: Result<String, String>)
    ensures
        args@.len() == 1 ==> (r matches Ok(d) && d@ == args@[0]@),
        args@.len() != 1 ==> (r matches Err(m) && m@ == "usage: playdemo [DEMOFILE]"@),
{
    if args.len() != 1 {
        Err(String::from_str("usage: playdemo [DEMOFILE]"))
    } else {
        Ok(args[0].clone())
    }
}

/// `startdemos`: the first demo to play and the queue of those after it,
/// or the usage text.
pub fn cmd_startdemos(args: &[String]) -> (r: Result<(String, Vec<String>), String>)
    ensures
        args@.len() > 0 ==> (r matches Ok((first, queue)) && first@ == args@[0]@ && views(queue@)
            == views(args@.drop_first())),
        args@.len() == 0 ==> (r matches Err(m) && m@ == "usage: startdemos [DEMOS]"@),
{
    if args.len() == 0 {
        return Err(String::from_str("usage: startdemos [DEMOS]"));
    }
    let mut queue: Vec<String> = Vec::new();
    let mut i: usize = 1;
    while i < args.len()
        invariant
            1 <= i <= args@.len(),
            views(queue@) == views(args@.subrange(1, i as int)),
        decreases args@.len() - i,
    {
        let ghost prev = queue@;
        let item = args[i].clone();
        queue.push(item);
        assert(queue@ == prev.push(item));
        assert(args@.subrange(1, i + 1) =~= args@.subrange(1, i as int).push(args@[i as int]));
        assert(views(queue@) =~= views(prev).push(item@));
        assert(views(args@.subrange(1, i + 1)) =~= views(args@.subrange(1, i as int)).push(
            args@[i as int]@,
        ));
        i = i + 1;
    }
    assert(args@.subrange(1, i as int) =~= args@.drop_first());
    Ok((args[0].clone(), queue))
}

/// `music`: the named track to start, or the usage text.
pub fn cmd_music(args: &[String]) -> (r: Result<MusicSource, String>)
    ensures
        args@.len() == 1 ==> (r matches Ok(MusicSource::Named(n)) && n@ == args@[0]@),
        args@.len() != 1 ==> (r matches Err(m) && m@ == "usage: music [TRACKNAME]"@),
{
    if args.len() != 1 {
        Err(String::from_str("usage: music [TRACKNAME]"))
    } else {
        Ok(MusicSource::Named(args[0].clone()))
    }
}

/// Toggling the console twice gives back the focus it started with, except
/// from the menu while connected, where the first toggle opens the console
/// and the second goes to the game.
pub proof fn toggle_console_twice(connected: bool, focus: InputFocus)
    requires
        connected || focus != InputFocus::Game,
        !(connected && focus == InputFocus::Menu),
    ensures
        toggled_console(connected, toggled_console(connected, focus)) == focus,
{
}

/// Toggling the menu twice gives back the focus it started with, except
/// from the console while connected, where the first toggle opens the menu
/// and the second goes to the game.
pub proof fn toggle_menu_twice(connected: bool, focus: InputFocus)
    requires
        connected || focus != InputFocus::Game,
        !(connected && focus == InputFocus::Console),
    ensures
        toggled_menu(connected, toggled_menu(connected, focus)) == focus,
{
}


/// Number of built-in client commands.
pub const BUILTIN_COUNT: usize = 19;

/// The names of the client's built-in commands, in the order they are
/// registered: focus, connection, demo and music commands, console
/// commands, and the key binding commands.
pub open spec fn builtin_names() -> Seq<Seq<char>> {
    seq![
        "toggleconsole"@,
        "togglemenu"@,
        "connect"@,
        "reconnect"@,
        "disconnect"@,
        "playdemo"@,
        "startdemos"@,
        "music"@,
        "music_stop"@,
        "music_pause"@,
        "music_resume"@,
        "echo"@,
        "alias"@,
        "find"@,
        "exec"@,
        "bf"@,
        "bind"@,
        "unbindall"@,
        "impulse"@,
    ]
}

/// The help texts of the built-in commands, in the same order.
pub open spec fn builtin_helps() -> Seq<Seq<char>> {
    seq![
        ""@,
        ""@,
        ""@,
        ""@,
        ""@,
        ""@,
        ""@,
        ""@,
        ""@,
        ""@,
        ""@,
        ""@,
        ""@,
        ""@,
        "Execute commands from a script file"@,
        "Set extra color shifts"@,
        "attach a command to a key"@,
        "delete all keybindings"@,
        "apply various effects depending on number"@,
    ]
}

fn builtin_entry(name: &str, help: &str, handler: SystemHandle) -> (r: (String, SystemHandle, String))
    ensures
        r.0@ == name@,
        r.1 == handler,
        r.2@ == help@,
{
    (String::from_str(name), handler, String::from_str(help))
}

/// The built-in commands with their handlers: command `i` runs
/// `handlers[i]`.
pub fn builtin_commands(handlers: &[SystemHandle]) -> (r: Vec<(String, SystemHandle, String)>)
    requires
        handlers@.len() == BUILTIN_COUNT,
    ensures
        r@.len() == BUILTIN_COUNT,
        forall|i: int|
            0 <= i < BUILTIN_COUNT ==> #[trigger] r@[i].0@ == builtin_names()[i] && r@[i].1
                == handlers@[i] && r@[i].2@ == builtin_helps()[i],
        r@[0].1 == handlers@[0] && r@[1].1 == handlers@[1],
        r@[0].0@ == "toggleconsole"@,
        r@[1].0@ == "togglemenu"@,
        r@[2].0@ == "connect"@,
        r@[3].0@ == "reconnect"@,
        r@[4].0@ == "disconnect"@,
        r@[5].0@ == "playdemo"@,
        r@[6].0@ == "startdemos"@,
        r@[7].0@ == "music"@,
        r@[8].0@ == "music_stop"@,
        r@[9].0@ == "music_pause"@,
        r@[10].0@ == "music_resume"@,
        r@[11].0@ == "echo"@,
        r@[12].0@ == "alias"@,
        r@[13].0@ == "find"@,
        r@[14].0@ == "exec"@,
        r@[15].0@ == "bf"@,
        r@[16].0@ == "bind"@,
        r@[17].0@ == "unbindall"@,
        r@[18].0@ == "impulse"@,
{
    let mut r: Vec<(String, SystemHandle, String)> = Vec::new();
    r.push(builtin_entry("toggleconsole", "", handlers[0]));
    r.push(builtin_entry("togglemenu", "", handlers[1]));
    r.push(builtin_entry("connect", "", handlers[2]));
    r.push(builtin_entry("reconnect", "", handlers[3]));
    r.push(builtin_entry("disconnect", "", handlers[4]));
    r.push(builtin_entry("playdemo", "", handlers[5]));
    r.push(builtin_entry("startdemos", "", handlers[6]));
    r.push(builtin_entry("music", "", handlers[7]));
    r.push(builtin_entry("music_stop", "", handlers[8]));
    r.push(builtin_entry("music_pause", "", handlers[9]));
    r.push(builtin_entry("music_resume", "", handlers[10]));
    r.push(builtin_entry("echo", "", handlers[11]));
    r.push(builtin_entry("alias", "", handlers[12]));
    r.push(builtin_entry("find", "", handlers[13]));
    r.push(builtin_entry("exec", "Execute commands from a script file", handlers[14]));
    r.push(builtin_entry("bf", "Set extra color shifts", handlers[15]));
    r.push(builtin_entry("bind", "attach a command to a key", handlers[16]));
    r.push(builtin_entry("unbindall", "delete all keybindings", handlers[17]));
    r.push(builtin_entry("impulse", "apply various effects depending on number", handlers[18]));
    proof {
        builtin_commands_pair_names_with_handlers(handlers@, r@);
    }
    r
}

/// Each built-in command is paired with its own handler: entry `i` is
/// named after the command whose handler is `handlers[i]`, in the order
/// the client registers them.
pub proof fn builtin_commands_pair_names_with_handlers(
    handlers: Seq<SystemHandle>,
    r: Seq<(String, SystemHandle, String)>,
)
    requires
        r.len() == BUILTIN_COUNT,
        forall|i: int|
            0 <= i < BUILTIN_COUNT ==> #[trigger] r[i].0@ == builtin_names()[i] && r[i].1
                == handlers[i] && r[i].2@ == builtin_helps()[i],
    ensures
        r[0].0@ == "toggleconsole"@ && r[0].1 == handlers[0],
        r[1].0@ == "togglemenu"@ && r[1].1 == handlers[1],
        r[2].0@ == "connect"@ && r[2].1 == handlers[2],
        r[3].0@ == "reconnect"@ && r[3].1 == handlers[3],
        r[4].0@ == "disconnect"@ && r[4].1 == handlers[4],
        r[5].0@ == "playdemo"@ && r[5].1 == handlers[5],
        r[6].0@ == "startdemos"@ && r[6].1 == handlers[6],
        r[7].0@ == "music"@ && r[7].1 == handlers[7],
        r[8].0@ == "music_stop"@ && r[8].1 == handlers[8],
        r[9].0@ == "music_pause"@ && r[9].1 == handlers[9],
        r[10].0@ == "music_resume"@ && r[10].1 == handlers[10],
        r[11].0@ == "echo"@ && r[11].1 == handlers[11],
        r[12].0@ == "alias"@ && r[12].1 == handlers[12],
        r[13].0@ == "find"@ && r[13].1 == handlers[13],
        r[14].0@ == "exec"@ && r[14].1 == handlers[14],
        r[15].0@ == "bf"@ && r[15].1 == handlers[15],
        r[16].0@ == "bind"@ && r[16].1 == handlers[16],
        r[17].0@ == "unbindall"@ && r[17].1 == handlers[17],
        r[18].0@ == "impulse"@ && r[18].1 == handlers[18],
{
    assert(r[0].0@ == builtin_names()[0]);
    assert(r[1].0@ == builtin_names()[1]);
    assert(r[2].0@ == builtin_names()[2]);
    assert(r[3].0@ == builtin_names()[3]);
    assert(r[4].0@ == builtin_names()[4]);
    assert(r[5].0@ == builtin_names()[5]);
    assert(r[6].0@ == builtin_names()[6]);
    assert(r[7].0@ == builtin_names()[7]);
    assert(r[8].0@ == builtin_names()[8]);
    assert(r[9].0@ == builtin_names()[9]);
    assert(r[10].0@ == builtin_names()[10]);
    assert(r[11].0@ == builtin_names()[11]);
    assert(r[12].0@ == builtin_names()[12]);
    assert(r[13].0@ == builtin_names()[13]);
    assert(r[14].0@ == builtin_names()[14]);
    assert(r[15].0@ == builtin_names()[15]);
    assert(r[16].0@ == builtin_names()[16]);
    assert(r[17].0@ == builtin_names()[17]);
    assert(r[18].0@ == builtin_names()[18]);
}

/// The commands after registering `entries` in order: a name not yet
/// registered gets its command; a name already in use keeps what it had.
pub open spec fn register_all(
    m: Map<Seq<char>, Seq<CommandImpl>>,
    entries: Seq<(String, SystemHandle, String)>,
) -> Map<Seq<char>, Seq<CommandImpl>>
    decreases entries.len(),
{
    if entries.len() == 0 {
        m
    } else {
        let e = entries[0];
        let m1 = if m.contains_key(e.0@) {
            m
        } else {
            m.insert(e.0@, seq![CommandImpl { kind: CmdKind::Builtin(e.1), help: e.2 }])
        };
        register_all(m1, entries.drop_first())
    }
}

/// Registers the given commands in order, as [`register_all`] says.
pub fn register_commands(registry: &mut Registry, entries: Vec<(String, SystemHandle, String)>)
    requires
        old(registry).wf(),
    ensures
        final(registry).wf(),
        final(registry).spec_names() == old(registry).spec_names(),
        final(registry).commands() == register_all(old(registry).commands(), entries@),
{
    let mut entries = entries;
    let ghost all = entries@;
    while entries.len() > 0
        invariant
            registry.wf(),
            registry.spec_names() == old(registry).spec_names(),
            register_all(registry.commands(), entries@) == register_all(old(registry).commands(), all),
        decreases entries@.len(),
    {
        let ghost rest = entries@;
        let (name, handler, help) = entries.remove(0);
        assert(entries@ =~= rest.drop_first());
        let _ = registry.command(name, handler, help);
    }
}

} // verus!
