use vstd::prelude::*;

use serde_lexpr::Value;

use super::cmd::Trigger;
use super::outside::{
    NameMap, clone_value, index_get, index_insert, index_new, index_remove, name_index, nil_value,
    parse_value, lexpr_parse, lexpr_string, lexpr_text, string_value, value_text,
};
use crate::menu::SystemHandle;

verus! {

/// Errors of the console and its registry.
#[derive(Debug)]
pub enum ConsoleError {
    CmdError(String),
    CvarParseFailed { name: String, value: Value },
    CvarParseInvalid,
    NoSuchCommand(String),
    NoSuchAlias(String),
    NoSuchCvar(String),
}

/// A configuration variable.
///
/// Cvars are the primary method of configuring the game.
#[derive(Debug)]
pub struct Cvar {
    /// Value of this variable, if it was set.
    pub value: Option<Value>,
    /// If true, this variable should be archived in vars.rc.
    pub archive: bool,
    /// If true, a server cvar's updates are broadcast to clients, and a
    /// client cvar's updates change the userinfo.
    pub notify: bool,
    /// The default value of this variable.
    pub default: Value,
}

impl Cvar {
    /// A cvar whose default is the value parsed from `default`.
    pub fn new(default: &str) -> (r: Cvar)
        requires
            lexpr_parse(default@) is Some,
        ensures
            r.value is None,
            !r.archive,
            !r.notify,
            Some(r.default) == lexpr_parse(default@),
    {
        let default = match parse_value(default) {
            Some(v) => v,
            None => {
                proof {
                    assert(false);
                }
                nil_value()
            },
        };
        Cvar { value: None, archive: false, notify: false, default }
    }

    /// A cvar whose default is the value parsed from `default`, or `None`
    /// when `default` holds no value.
    pub fn try_new(default: &str) -> (r: Option<Cvar>)
        ensures
            r is Some <==> lexpr_parse(default@) is Some,
            r matches Some(c) ==> c.value is None && !c.archive && !c.notify && Some(c.default)
                == lexpr_parse(default@),
    {
        match parse_value(default) {
            Some(_) => Some(Cvar::new(default)),
            None => None,
        }
    }

    pub fn archive(self) -> (r: Cvar)
        ensures
            r == (Cvar { archive: true, ..self }),
    {
        let mut c = self;
        c.archive = true;
        c
    }

    pub fn notify(self) -> (r: Cvar)
        ensures
            r == (Cvar { notify: true, ..self }),
    {
        let mut c = self;
        c.notify = true;
        c
    }

    /// The value in effect: the one set, or else the default.
    pub open spec fn current(self) -> Value {
        match self.value {
            Some(v) => v,
            None => self.default,
        }
    }

    pub fn value(&self) -> (r: &Value)
        ensures
            *r == self.current(),
    {
        match &self.value {
            Some(v) => v,
            None => &self.default,
        }
    }
}

impl Default for Cvar {
    fn default() -> (r: Cvar)
        ensures
            r.value is None,
            !r.archive,
            !r.notify,
    {
        Cvar { value: None, archive: false, notify: false, default: nil_value() }
    }
}

/// What a name stands for: a handler to run, a key to track, another
/// command, or a cvar.
#[derive(Debug)]
pub enum CmdKind {
    Builtin(SystemHandle),
    Action { system: Option<SystemHandle>, state: Trigger },
    Alias(String),
    Cvar(Cvar),
}

#[derive(Debug)]
pub struct CommandImpl {
    pub kind: CmdKind,
    pub help: String,
}

/// An alias with the command it stands for.
#[derive(Clone, Debug)]
pub struct AliasInfo {
    pub name: String,
    pub target: String,
    pub help: String,
}

/// All the definitions of one name: the first, and those layered over it
/// since, newest last.
pub open spec fn stack_of(slot: (CommandImpl, Vec<CommandImpl>)) -> Seq<CommandImpl> {
    seq![slot.0] + slot.1@
}

/// Stores console commands.
///
/// Each name keeps every definition it was given, so that removing the
/// newest one brings back the one before it.
pub struct Registry {
    index: NameMap,
    slots: Vec<(CommandImpl, Vec<CommandImpl>)>,
    names: Vec<String>,
}

impl Registry {
    /// Every indexed name leads to its own slot.
    pub closed spec fn wf(self) -> bool {
        let idx = name_index(self.index);
        &&& forall|k: Seq<char>| #[trigger] idx.contains_key(k) ==> idx[k] < self.slots@.len()
        &&& forall|k1: Seq<char>, k2: Seq<char>|
            #[trigger] idx.contains_key(k1) && #[trigger] idx.contains_key(k2) && k1 != k2
                ==> idx[k1] != idx[k2]
    }

    /// The definitions of each registered name, oldest first.
    pub closed spec fn commands(self) -> Map<Seq<char>, Seq<CommandImpl>> {
        Map::new(
            |k: Seq<char>| name_index(self.index).contains_key(k),
            |k: Seq<char>| stack_of(self.slots@[name_index(self.index)[k] as int]),
        )
    }

    /// The names listed for enumeration, in order.
    pub closed spec fn spec_names(self) -> Seq<Seq<char>> {
        self.names@.map_values(|s: String| s@)
    }

    /// The definition in effect for `name`: the newest one.
    pub open spec fn lookup(self, name: Seq<char>) -> Option<CommandImpl> {
        if self.commands().contains_key(name) {
            Some(self.commands()[name].last())
        } else {
            None
        }
    }

    /// `commands` with `value` layered over `name`.
    pub open spec fn with_definition(
        commands: Map<Seq<char>, Seq<CommandImpl>>,
        name: Seq<char>,
        value: CommandImpl,
    ) -> Map<Seq<char>, Seq<CommandImpl>> {
        if commands.contains_key(name) {
            commands.insert(name, commands[name].push(value))
        } else {
            commands.insert(name, seq![value])
        }
    }

    /// `commands` with the newest definition of `name` taken away, and the
    /// name gone once it has none left.
    pub open spec fn without_newest(commands: Map<Seq<char>, Seq<CommandImpl>>, name: Seq<char>) -> Map<
        Seq<char>,
        Seq<CommandImpl>,
    > {
        if commands[name].len() <= 1 {
            commands.remove(name)
        } else {
            commands.insert(name, commands[name].drop_last())
        }
    }

    /// A name that was just defined looks up to that definition.
    pub proof fn lookup_after_define(self, name: Seq<char>, c: CommandImpl)
        requires
            self.wf(),
        ensures
            Registry::with_definition(self.commands(), name, c).contains_key(name),
            Registry::with_definition(self.commands(), name, c)[name].last() == c,
    {
    }

    /// Defining a name and then removing it brings back what the name had
    /// before: its earlier definitions, or no entry at all.
    pub proof fn define_then_remove_restores(self, name: Seq<char>, c: CommandImpl)
        requires
            self.wf(),
        ensures
            Registry::without_newest(Registry::with_definition(self.commands(), name, c), name)
                == self.commands(),
    {
        self.lemma_stacks_nonempty();
        let m = self.commands();
        let m1 = Registry::with_definition(m, name, c);
        if m.contains_key(name) {
            assert(m1[name].drop_last() =~= m[name]);
            assert(Registry::without_newest(m1, name) =~= m);
        } else {
            assert(Registry::without_newest(m1, name) =~= m);
        }
    }

    /// Every registered name has at least one definition.
    pub proof fn lemma_stacks_nonempty(self)
        requires
            self.wf(),
        ensures
            forall|k: Seq<char>| #[trigger]
                self.commands().contains_key(k) ==> self.commands()[k].len() >= 1,
    {
    }

    pub fn new() -> (r: Registry)
        ensures
            r.wf(),
            r.commands() == Map::<Seq<char>, Seq<CommandImpl>>::empty(),
            r.spec_names() == Seq::<Seq<char>>::empty(),
    {
        let r = Registry { index: index_new(), slots: Vec::new(), names: Vec::new() };
        assert(r.commands() =~= Map::<Seq<char>, Seq<CommandImpl>>::empty());
        assert(r.spec_names() =~= Seq::<Seq<char>>::empty());
        r
    }

    fn insert(&mut self, name: String, value: CommandImpl)
        requires
            old(self).wf(),
        ensures
            final(self).wf(),
            final(self).commands() == Registry::with_definition(old(self).commands(), name@, value),
            final(self).spec_names() == old(self).spec_names(),
    {
        let ghost old_commands = self.commands();
        let ghost idx = name_index(self.index);
        match index_get(&self.index, name.as_str()) {
            Some(i) => {
                let ghost v = value;
                let slot = &mut self.slots[i];
                slot.1.push(value);
                assert(self.commands() =~= Registry::with_definition(old_commands, name@, v)) by {
                    assert forall|k: Seq<char>| #[trigger] self.commands().contains_key(k) implies
                        self.commands()[k] == Registry::with_definition(old_commands, name@, v)[k] by {
                        if k != name@ {
                            assert(idx[k] != idx[name@]);
                        } else {
                            assert(stack_of(self.slots@[i as int]) =~= old_commands[k].push(v));
                        }
                    }
                }
            },
            None => {
                let ghost v = value;
                let slot = self.slots.len();
                self.slots.push((value, Vec::new()));
                index_insert(&mut self.index, name, slot);
                assert(self.commands() =~= Registry::with_definition(old_commands, name@, v)) by {
                    assert(stack_of(self.slots@[slot as int]) =~= seq![v]);
                }
            },
        }
    }

    /// Registers `name` as an alias of `command`.
    pub fn alias(&mut self, name: String, command: String)
        requires
            old(self).wf(),
        ensures
            final(self).wf(),
            final(self).spec_names() == old(self).spec_names(),
            exists|c: CommandImpl|
                #![trigger Registry::with_definition(old(self).commands(), name@, c)]
                c.kind matches CmdKind::Alias(t) && t@ == command@ && c.help@ == Seq::<char>::empty()
                    && final(self).commands() == Registry::with_definition(
                    old(self).commands(),
                    name@,
                    c,
                ),
    {
        let c = CommandImpl { kind: CmdKind::Alias(command), help: String::new() };
        let ghost gc = c;
        self.insert(name, c);
        assert(Registry::with_definition(old(self).commands(), name@, gc) == final(self).commands());
    }

    /// Registers `name` as a cvar.
    pub fn cvar(&mut self, name: String, cvar: Cvar, help: String)
        requires
            old(self).wf(),
        ensures
            final(self).wf(),
            final(self).spec_names() == old(self).spec_names(),
            final(self).commands() == Registry::with_definition(
                old(self).commands(),
                name@,
                CommandImpl { kind: CmdKind::Cvar(cvar), help },
            ),
    {
        self.insert(name, CommandImpl { kind: CmdKind::Cvar(cvar), help });
    }

    /// Registers `name` as a command that runs the handler `cmd`.
    ///
    /// Returns an error, and leaves the registry as it was, if the name is
    /// already in use.
    pub fn command(&mut self, name: String, cmd: SystemHandle, help: String) -> (r: Result<(), ConsoleError>)
        requires
            old(self).wf(),
        ensures
            final(self).wf(),
            final(self).spec_names() == old(self).spec_names(),
            old(self).commands().contains_key(name@) ==> (r matches Err(ConsoleError::CmdError(m))
                && m@ == "Command already exists: "@ + name@) && final(self).commands() == old(self).commands(),
            !old(self).commands().contains_key(name@) ==> r is Ok && final(self).commands()
                == old(self).commands().insert(
                name@,
                seq![CommandImpl { kind: CmdKind::Builtin(cmd), help }],
            ),
    {
        match index_get(&self.index, name.as_str()) {
            Some(_) => {
                let mut m = String::from_str("Command already exists: ");
                m.append(name.as_str());
                Err(ConsoleError::CmdError(m))
            },
            None => {
                self.insert(name, CommandImpl { kind: CmdKind::Builtin(cmd), help });
                Ok(())
            },
        }
    }

    /// Takes away the newest definition of `name` at slot `i`.
    fn pop_definition(&mut self, name: &str, i: usize)
        requires
            old(self).wf(),
            name_index(old(self).index).contains_key(name@),
            name_index(old(self).index)[name@] == i,
        ensures
            final(self).wf(),
            final(self).spec_names() == old(self).spec_names(),
            final(self).commands() == Registry::without_newest(old(self).commands(), name@),
    {
        let ghost old_commands = self.commands();
        let ghost idx = name_index(self.index);
        let slot = &mut self.slots[i];
        let popped = slot.1.pop();
        match popped {
            Some(_) => {
                assert(self.commands() =~= Registry::without_newest(old_commands, name@)) by {
                    assert forall|k: Seq<char>| #[trigger] self.commands().contains_key(k) implies
                        self.commands()[k] == Registry::without_newest(old_commands, name@)[k] by {
                        if k != name@ {
                            assert(idx[k] != idx[name@]);
                        } else {
                            assert(stack_of(self.slots@[i as int]) =~= old_commands[k].drop_last());
                        }
                    }
                }
            },
            None => {
                index_remove(&mut self.index, name);
                assert(self.commands() =~= Registry::without_newest(old_commands, name@));
            },
        }
    }

    /// Removes the newest definition of the command with the given name.
    ///
    /// Returns an error if there was no command with that name.
    pub fn remove(&mut self, name: &str) -> (r: Result<(), ConsoleError>)
        requires
            old(self).wf(),
        ensures
            final(self).wf(),
            final(self).spec_names() == old(self).spec_names(),
            !old(self).commands().contains_key(name@) ==> (r matches Err(ConsoleError::NoSuchCommand(n))
                && n@ == name@) && final(self).commands() == old(self).commands(),
            old(self).commands().contains_key(name@) ==> r is Ok && final(self).commands()
                == Registry::without_newest(old(self).commands(), name@),
    {
        match index_get(&self.index, name) {
            Some(i) => {
                self.pop_definition(name, i);
                Ok(())
            },
            None => Err(ConsoleError::NoSuchCommand(name.to_owned())),
        }
    }

    /// Removes the newest definition of the alias with the given name.
    ///
    /// Returns an error if that name is not defined as an alias.
    pub fn remove_alias(&mut self, name: &str) -> (r: Result<(), ConsoleError>)
        requires
            old(self).wf(),
        ensures
            final(self).wf(),
            final(self).spec_names() == old(self).spec_names(),
            !(old(self).lookup(name@) matches Some(c) && c.kind is Alias) ==> (r matches Err(
                ConsoleError::NoSuchAlias(n),
            ) && n@ == name@) && final(self).commands() == old(self).commands(),
            old(self).lookup(name@) matches Some(c) && c.kind is Alias ==> r is Ok
                && final(self).commands() == Registry::without_newest(old(self).commands(), name@),
    {
        match index_get(&self.index, name) {
            Some(i) => {
                let is_alias = {
                    let slot = &self.slots[i];
                    let n = slot.1.len();
                    let top = if n > 0 {
                        &slot.1[n - 1]
                    } else {
                        &slot.0
                    };
                    match &top.kind {
                        CmdKind::Alias(_) => true,
                        _ => false,
                    }
                };
                if !is_alias {
                    return Err(ConsoleError::NoSuchAlias(name.to_owned()));
                }
                self.pop_definition(name, i);
                Ok(())
            },
            None => Err(ConsoleError::NoSuchAlias(name.to_owned())),
        }
    }

    /// Get the definition in effect for a command.
    pub fn get(&self, name: &str) -> (r: Option<&CommandImpl>)
        requires
            self.wf(),
        ensures
            self.lookup(name@) is None ==> r is None,
            self.lookup(name@) matches Some(c) ==> (r matches Some(rc) && *rc == c),
    {
        match index_get(&self.index, name) {
            Some(i) => {
                let slot = &self.slots[i];
                let n = slot.1.len();
                if n > 0 {
                    Some(&slot.1[n - 1])
                } else {
                    Some(&slot.0)
                }
            },
            None => None,
        }
    }

    pub fn contains(&self, name: &str) -> (r: bool)
        requires
            self.wf(),
        ensures
            r == self.commands().contains_key(name@),
    {
        match index_get(&self.index, name) {
            Some(_) => true,
            None => false,
        }
    }
}

impl Registry {
    /// `commands` with the newest definition of `name` replaced by `c`.
    pub open spec fn replace_newest(
        commands: Map<Seq<char>, Seq<CommandImpl>>,
        name: Seq<char>,
        c: CommandImpl,
    ) -> Map<Seq<char>, Seq<CommandImpl>> {
        commands.insert(name, commands[name].update(commands[name].len() - 1, c))
    }

    proof fn lemma_replace_newest(old: Registry, new: Registry, name: Seq<char>, i: int, c: CommandImpl)
        requires
            old.wf(),
            new.index == old.index,
            name_index(old.index).contains_key(name),
            name_index(old.index)[name] == i,
            new.slots@ == old.slots@.update(i, new.slots@[i]),
            new.slots@[i].0 == old.slots@[i].0,
            old.slots@[i].1@.len() > 0,
            new.slots@[i].1@ == old.slots@[i].1@.update(old.slots@[i].1@.len() - 1, c),
        ensures
            new.commands() == Registry::replace_newest(old.commands(), name, c),
    {
        let idx = name_index(old.index);
        assert forall|k: Seq<char>| #[trigger] new.commands().contains_key(k) implies new.commands()[k]
            == Registry::replace_newest(old.commands(), name, c)[k] by {
            if k != name {
                assert(idx[k] != idx[name]);
            } else {
                assert(stack_of(new.slots@[i]) =~= old.commands()[k].update(
                    old.commands()[k].len() - 1,
                    c,
                ));
            }
        }
        assert(new.commands() =~= Registry::replace_newest(old.commands(), name, c));
    }

    proof fn lemma_replace_newest_all(old: Registry, name: Seq<char>, i: int)
        requires
            old.wf(),
            name_index(old.index).contains_key(name),
            name_index(old.index)[name] == i,
        ensures
            forall|new: Registry, c: CommandImpl|
                #![trigger new.commands(), Registry::replace_newest(old.commands(), name, c)]
                new.index == old.index && new.slots@ == old.slots@.update(i, new.slots@[i])
                    && new.slots@[i].0 == old.slots@[i].0 && old.slots@[i].1@.len() > 0
                    && new.slots@[i].1@ == old.slots@[i].1@.update(old.slots@[i].1@.len() - 1, c)
                    ==> new.commands() == Registry::replace_newest(old.commands(), name, c),
            forall|new: Registry, c: CommandImpl|
                #![trigger new.commands(), Registry::replace_newest(old.commands(), name, c)]
                new.index == old.index && new.slots@ == old.slots@.update(i, new.slots@[i])
                    && new.slots@[i].0 == c && old.slots@[i].1@.len() == 0 && new.slots@[i].1@
                    == old.slots@[i].1@ ==> new.commands() == Registry::replace_newest(
                    old.commands(),
                    name,
                    c,
                ),
    {
        assert forall|new: Registry, c: CommandImpl|
            new.index == old.index && new.slots@ == old.slots@.update(i, new.slots@[i])
                && new.slots@[i].0 == old.slots@[i].0 && old.slots@[i].1@.len() > 0
                && new.slots@[i].1@ == old.slots@[i].1@.update(old.slots@[i].1@.len() - 1, c)
            implies new.commands() == Registry::replace_newest(old.commands(), name, c) by {
            Registry::lemma_replace_newest(old, new, name, i, c);
        }
        assert forall|new: Registry, c: CommandImpl|
            new.index == old.index && new.slots@ == old.slots@.update(i, new.slots@[i])
                && new.slots@[i].0 == c && old.slots@[i].1@.len() == 0 && new.slots@[i].1@
                == old.slots@[i].1@
            implies new.commands() == Registry::replace_newest(old.commands(), name, c) by {
            let idx = name_index(old.index);
            assert forall|k: Seq<char>| #[trigger] new.commands().contains_key(k) implies new.commands()[k]
                == Registry::replace_newest(old.commands(), name, c)[k] by {
                if k != name {
                    assert(idx[k] != idx[name]);
                } else {
                    assert(stack_of(new.slots@[i]) =~= old.commands()[k].update(
                        old.commands()[k].len() - 1,
                        c,
                    ));
                }
            }
            assert(new.commands() =~= Registry::replace_newest(old.commands(), name, c));
        }
    }

    /// Get the definition in effect for a command, to change it in place.
    pub fn get_mut(&mut self, name: &str) -> (r: Option<&mut CommandImpl>)
        requires
            old(self).wf(),
        ensures
            final(self).wf(),
            final(self).spec_names() == old(self).spec_names(),
            old(self).lookup(name@) is None ==> r is None && final(self).commands() == old(
                self,
            ).commands(),
            old(self).lookup(name@) matches Some(c) ==> (r matches Some(rc) && *rc == c
                && final(self).commands() == Registry::replace_newest(
                old(self).commands(),
                name@,
                *final(rc),
            )),
    {
        proof {
            self.lemma_stacks_nonempty();
        }
        let ghost old_commands = self.commands();
        let ghost idx = name_index(self.index);
        match index_get(&self.index, name) {
            Some(i) => {
                proof {
                    Registry::lemma_replace_newest_all(*self, name@, i as int);
                }
                let slot = &mut self.slots[i];
                let n = slot.1.len();
                if n > 0 {
                    let rc = &mut slot.1[n - 1];
                    Some(rc)
                } else {
                    let rc = &mut slot.0;
                    Some(rc)
                }
            },
            None => None,
        }
    }
}

/// A message that executing a command leaves for the console.
#[derive(Debug)]
pub enum ExecMessage {
    /// Shows a cvar's current value.
    ShowCvar { name: String, value: Value },
    /// A cvar was given more than one argument.
    TooManyArguments,
    /// A cvar was invoked with `+` or `-`.
    IsCvar(String),
    /// A command was invoked with `+` or `-`.
    IsCommand(String),
    /// An action was invoked without `+` or `-`.
    IsAction(String),
    /// No command has the name.
    Unrecognized(String),
}

impl ExecMessage {
    /// The line the console prints for the message.
    pub fn text(&self) -> (r: String)
        ensures
            match self {
                ExecMessage::ShowCvar { name, value } => r@ == "\""@ + name@ + "\" is \""@
                    + lexpr_text(*value) + "\""@,
                ExecMessage::TooManyArguments => r@ == "Too many arguments, expected 1"@,
                ExecMessage::IsCvar(n) => r@ == n@ + " is a cvar"@,
                ExecMessage::IsCommand(n) => r@ == n@ + " is a command, and cannot be invoked with +/-"@,
                ExecMessage::IsAction(n) => r@ == n@ + " is an action, and must be invoked with +/-"@,
                ExecMessage::Unrecognized(n) => r@ == "Unrecognized command \""@ + n@ + "\""@,
            },
    {
        match self {
            ExecMessage::ShowCvar { name, value } => {
                let v = value_text(value);
                let mut s = String::from_str("\"");
                s.append(name.as_str());
                s.append("\" is \"");
                s.append(v.as_str());
                s.append("\"");
                s
            },
            ExecMessage::TooManyArguments => String::from_str("Too many arguments, expected 1"),
            ExecMessage::IsCvar(n) => {
                let mut s = n.clone();
                s.append(" is a cvar");
                s
            },
            ExecMessage::IsCommand(n) => {
                let mut s = n.clone();
                s.append(" is a command, and cannot be invoked with +/-");
                s
            },
            ExecMessage::IsAction(n) => {
                let mut s = n.clone();
                s.append(" is an action, and must be invoked with +/-");
                s
            },
            ExecMessage::Unrecognized(n) => {
                let mut s = String::from_str("Unrecognized command \"");
                s.append(n.as_str());
                s.append("\"");
                s
            },
        }
    }
}

/// What happens next when a command name is executed.
#[derive(Debug)]
pub enum ExecStep {
    /// Nothing more: the command took effect, and prints nothing.
    Done,
    /// Print a message on the console.
    Print(ExecMessage),
    /// The name is an alias: execute this name in its place.
    Redirect(String),
    /// Run this command handler with the arguments.
    RunBuiltin(SystemHandle),
    /// Run this action handler with the new key state and the arguments.
    RunAction(SystemHandle, Trigger),
}

/// How executing `name` with `trigger` and `args` changes its definition
/// `c` into `nc`, and what it asks for next.
pub open spec fn exec_rel(
    c: CommandImpl,
    nc: CommandImpl,
    name: Seq<char>,
    trigger: Option<Trigger>,
    args: Seq<String>,
    r: ExecStep,
) -> bool {
    match (trigger, c.kind) {
        (None, CmdKind::Cvar(cv)) => if args.len() == 0 {
            nc == c && (r matches ExecStep::Print(ExecMessage::ShowCvar { name: n, value: v })
                && n@ == name && v == cv.current())
        } else if args.len() == 1 {
            r is Done && nc == (CommandImpl {
                kind: CmdKind::Cvar(
                    Cvar {
                        value: Some(
                            match lexpr_parse(args[0]@) {
                                Some(v) => v,
                                None => lexpr_string(args[0]@),
                            },
                        ),
                        ..cv
                    },
                ),
                ..c
            })
        } else {
            nc == c && r matches ExecStep::Print(ExecMessage::TooManyArguments)
        },
        (Some(_), CmdKind::Cvar(_)) => nc == c && (r matches ExecStep::Print(ExecMessage::IsCvar(n))
            && n@ == name),
        (_, CmdKind::Alias(a)) => nc == c && (r matches ExecStep::Redirect(t) && t@ == a@),
        (None, CmdKind::Builtin(h)) => nc == c && r == ExecStep::RunBuiltin(h),
        (Some(_), CmdKind::Builtin(_)) => nc == c && (r matches ExecStep::Print(
            ExecMessage::IsCommand(n),
        ) && n@ == name),
        (Some(t), CmdKind::Action { system, state }) => if state == t {
            nc == c && r is Done
        } else {
            nc == (CommandImpl { kind: CmdKind::Action { system, state: t }, ..c }) && match system {
                Some(h) => r == ExecStep::RunAction(h, t),
                None => r is Done,
            }
        },
        (None, CmdKind::Action { .. }) => nc == c && (r matches ExecStep::Print(
            ExecMessage::IsAction(n),
        ) && n@ == name),
    }
}

/// Running an action with a `+` or `-` edge records that edge as the
/// action's key state, whether or not the action has a handler, keeps its
/// handler and help, and runs the handler, if any, with the new edge when
/// the edge changed.
pub proof fn action_edge_is_recorded(
    c: CommandImpl,
    nc: CommandImpl,
    name: Seq<char>,
    t: Trigger,
    args: Seq<String>,
    r: ExecStep,
)
    requires
        c.kind is Action,
        exec_rel(c, nc, name, Some(t), args, r),
    ensures
        nc.kind == (CmdKind::Action { system: c.kind->Action_system, state: t }),
        nc.help == c.help,
        c.kind->Action_state != t ==> match c.kind->Action_system {
            Some(h) => r == ExecStep::RunAction(h, t),
            None => r is Done,
        },
        c.kind->Action_state == t ==> r is Done,
{
}

impl Registry {
    /// After an action `name` is run with edge `t`, the registry records
    /// `t` as its key state: after `+name` the key is pressed, after
    /// `-name` it is not.
    pub proof fn action_state_after_edge(
        self,
        after: Registry,
        name: Seq<char>,
        t: Trigger,
        args: Seq<String>,
        nc: CommandImpl,
        r: ExecStep,
    )
        requires
            self.wf(),
            self.lookup(name) matches Some(c) && c.kind is Action,
            exec_rel(self.lookup(name).unwrap(), nc, name, Some(t), args, r),
            after.commands() == Registry::replace_newest(self.commands(), name, nc),
        ensures
            after.lookup(name) matches Some(c2) && c2.kind matches CmdKind::Action { state, .. }
                && state == t,
    {
        self.lemma_stacks_nonempty();
        action_edge_is_recorded(self.lookup(name).unwrap(), nc, name, t, args, r);
        let s = self.commands()[name];
        assert(after.commands()[name] == s.update(s.len() - 1, nc));
    }
}

impl Registry {
    /// Executes one step of the command `name`: sets or shows a cvar,
    /// records an action's key state, follows an alias, or says which
    /// handler to run.
    pub fn execute_step(&mut self, name: &str, trigger: Option<Trigger>, args: &Vec<String>) -> (r:
        ExecStep)
        requires
            old(self).wf(),
        ensures
            final(self).wf(),
            final(self).spec_names() == old(self).spec_names(),
            old(self).lookup(name@) is None ==> final(self).commands() == old(self).commands() && (
            r matches ExecStep::Print(ExecMessage::Unrecognized(n)) && n@ == name@),
            old(self).lookup(name@) matches Some(c) ==> exists|nc: CommandImpl|
                #![trigger Registry::replace_newest(old(self).commands(), name@, nc)]
                exec_rel(c, nc, name@, trigger, args@, r) && final(self).commands()
                    == Registry::replace_newest(old(self).commands(), name@, nc),
    {
        match self.get_mut(name) {
            None => ExecStep::Print(ExecMessage::Unrecognized(name.to_owned())),
            Some(c) => {
                let ghost oc = *c;
                let r = match trigger {
                    None => match &mut c.kind {
                        CmdKind::Cvar(cvar) => {
                            if args.len() == 0 {
                                ExecStep::Print(
                                    ExecMessage::ShowCvar {
                                        name: name.to_owned(),
                                        value: clone_value(cvar.value()),
                                    },
                                )
                            } else if args.len() == 1 {
                                let text = args[0].as_str();
                                let v = match parse_value(text) {
                                    Some(v) => v,
                                    None => string_value(text),
                                };
                                cvar.value = Some(v);
                                ExecStep::Done
                            } else {
                                ExecStep::Print(ExecMessage::TooManyArguments)
                            }
                        },
                        CmdKind::Alias(alias) => ExecStep::Redirect(alias.clone()),
                        CmdKind::Builtin(h) => ExecStep::RunBuiltin(*h),
                        CmdKind::Action { .. } => ExecStep::Print(
                            ExecMessage::IsAction(name.to_owned()),
                        ),
                    },
                    Some(t) => match &mut c.kind {
                        CmdKind::Cvar(_) => ExecStep::Print(ExecMessage::IsCvar(name.to_owned())),
                        CmdKind::Alias(alias) => ExecStep::Redirect(alias.clone()),
                        CmdKind::Builtin(_) => ExecStep::Print(
                            ExecMessage::IsCommand(name.to_owned()),
                        ),
                        CmdKind::Action { system, state } => {
                            if *state == t {
                                ExecStep::Done
                            } else {
                                *state = t;
                                match system {
                                    Some(h) => ExecStep::RunAction(*h, t),
                                    None => ExecStep::Done,
                                }
                            }
                        },
                    },
                };
                assert(exec_rel(oc, *c, name@, trigger, args@, r));
                r
            },
        }
    }

    /// Replaces a cvar's value with the value parsed from `value`, and
    /// returns the value it had before.
    pub fn set_cvar(&mut self, name: &str, value: &str) -> (r: Result<Value, ConsoleError>)
        requires
            old(self).wf(),
        ensures
            final(self).wf(),
            final(self).spec_names() == old(self).spec_names(),
            lexpr_parse(value@) is None ==> (r matches Err(ConsoleError::CvarParseInvalid))
                && final(self).commands() == old(self).commands(),
            lexpr_parse(value@) is Some && !(old(self).lookup(name@) matches Some(c) && c.kind is Cvar)
                ==> (r matches Err(ConsoleError::NoSuchCvar(n)) && n@ == name@) && final(self).commands()
                == old(self).commands(),
            lexpr_parse(value@) is Some && (old(self).lookup(name@) matches Some(c) && c.kind is Cvar)
                ==> ({
                let c = old(self).lookup(name@).unwrap();
                let cv = c.kind->Cvar_0;
                &&& r matches Ok(v) && v == cv.current()
                &&& final(self).commands() == Registry::replace_newest(
                    old(self).commands(),
                    name@,
                    CommandImpl {
                        kind: CmdKind::Cvar(Cvar { value: lexpr_parse(value@), ..cv }),
                        ..c
                    },
                )
            }),
    {
        let v = match parse_value(value) {
            Some(v) => v,
            None => return Err(ConsoleError::CvarParseInvalid),
        };
        let is_cvar = match self.get(name) {
            Some(c) => match &c.kind {
                CmdKind::Cvar(_) => true,
                _ => false,
            },
            None => false,
        };
        if !is_cvar {
            return Err(ConsoleError::NoSuchCvar(name.to_owned()));
        }
        match self.get_mut(name) {
            Some(c) => match &mut c.kind {
                CmdKind::Cvar(cvar) => {
                    let mut previous = Some(v);
                    std::mem::swap(&mut cvar.value, &mut previous);
                    match previous {
                        Some(p) => Ok(p),
                        None => Ok(clone_value(&cvar.default)),
                    }
                },
                _ => {
                    proof {
                        assert(false);
                    }
                    Err(ConsoleError::CvarParseInvalid)
                },
            },
            None => {
                proof {
                    assert(false);
                }
                Err(ConsoleError::CvarParseInvalid)
            },
        }
    }

    /// The cvar with the given name, if the definition in effect is a cvar.
    pub fn get_cvar(&self, name: &str) -> (r: Option<&Cvar>)
        requires
            self.wf(),
        ensures
            (self.lookup(name@) matches Some(c) && c.kind is Cvar) ==> (r matches Some(cv) && *cv
                == self.lookup(name@).unwrap().kind->Cvar_0),
            !(self.lookup(name@) matches Some(c) && c.kind is Cvar) ==> r is None,
    {
        match self.get(name) {
            Some(c) => match &c.kind {
                CmdKind::Cvar(cvar) => Some(cvar),
                _ => None,
            },
            None => None,
        }
    }

    /// Whether the definition in effect is an action whose key is down.
    pub fn is_pressed(&self, name: &str) -> (r: bool)
        requires
            self.wf(),
        ensures
            r == (self.lookup(name@) matches Some(c) && c.kind matches CmdKind::Action { state, .. }
                && state == Trigger::Positive),
    {
        match self.get(name) {
            Some(c) => match &c.kind {
                CmdKind::Action { state, .. } => *state == Trigger::Positive,
                _ => false,
            },
            None => false,
        }
    }

    /// The current value of the cvar with the given name, for reading it
    /// as a typed value.
    pub fn cvar_value(&self, name: &str) -> (r: Result<&Value, ConsoleError>)
        requires
            self.wf(),
        ensures
            (self.lookup(name@) matches Some(c) && c.kind is Cvar) ==> (r matches Ok(v) && *v
                == self.lookup(name@).unwrap().kind->Cvar_0.current()),
            !(self.lookup(name@) matches Some(c) && c.kind is Cvar) ==> (r matches Err(
                ConsoleError::NoSuchCvar(n),
            ) && n@ == name@),
    {
        match self.get_cvar(name) {
            Some(c) => Ok(c.value()),
            None => Err(ConsoleError::NoSuchCvar(name.to_owned())),
        }
    }

    /// The positions, among `fields`, of the names that are cvars, in order:
    /// these are the fields that reading a structure from cvars fills.
    pub fn cvar_fields(&self, fields: &Vec<String>) -> (r: Vec<usize>)
        requires
            self.wf(),
        ensures
            r@ == Seq::new(fields@.len(), |i: int| i).filter(
                |i: int| self.lookup(fields@[i]@) matches Some(c) && c.kind is Cvar,
            ).map_values(|i: int| i as usize),
    {
        let mut out: Vec<usize> = Vec::new();
        let mut i: usize = 0;
        let ghost pred = |i: int| self.lookup(fields@[i]@) matches Some(c) && c.kind is Cvar;
        while i < fields.len()
            invariant
                i <= fields@.len(),
                self.wf(),
                pred == (|i: int| self.lookup(fields@[i]@) matches Some(c) && c.kind is Cvar),
                out@ == Seq::new(i as nat, |j: int| j).filter(pred).map_values(|j: int| j as usize),
            decreases fields@.len() - i,
        {
            let ghost before = Seq::new(i as nat, |j: int| j);
            let ghost after = Seq::new((i + 1) as nat, |j: int| j);
            assert(after.drop_last() =~= before);
            reveal_with_fuel(Seq::<_>::filter, 1);
            let found = match self.get_cvar(fields[i].as_str()) {
                Some(_) => true,
                None => false,
            };
            if found {
                out.push(i);
            }
            assert(out@ =~= after.filter(pred).map_values(|j: int| j as usize));
            i = i + 1;
        }
        assert(Seq::new(fields@.len(), |j: int| j) =~= Seq::new(i as nat, |j: int| j));
        out
    }
}

/// The kinds of command that names can be listed by.
#[derive(Clone, Copy, Debug, PartialEq, Eq, Structural)]
pub enum NameKind {
    Builtin,
    Alias,
    Cvar,
}

/// Whether a definition is of the given kind.
pub open spec fn is_kind(c: CommandImpl, kind: NameKind) -> bool {
    match kind {
        NameKind::Builtin => c.kind is Builtin,
        NameKind::Alias => c.kind is Alias,
        NameKind::Cvar => c.kind is Cvar,
    }
}

impl Registry {
    /// Whether the definition in effect for `name` is of the given kind.
    pub open spec fn names_kind(self, name: Seq<char>, kind: NameKind) -> bool {
        self.lookup(name) matches Some(c) && is_kind(c, kind)
    }

    /// All listed names, in order.
    pub fn all_names(&self) -> (r: Vec<String>)
        ensures
            r@.map_values(|s: String| s@) == self.spec_names(),
    {
        let mut out: Vec<String> = Vec::new();
        let mut i: usize = 0;
        while i < self.names.len()
            invariant
                i <= self.names@.len(),
                out@.map_values(|s: String| s@) == self.names@.take(i as int).map_values(
                    |s: String| s@,
                ),
            decreases self.names@.len() - i,
        {
            let ghost prev = out@;
            out.push(self.names[i].clone());
            assert(self.names@.take(i + 1) =~= self.names@.take(i as int).push(self.names@[i as int]));
            assert(out@ == prev.push(self.names@[i as int]));
            assert(out@.map_values(|s: String| s@) =~= prev.map_values(|s: String| s@).push(
                self.names@[i as int]@,
            ));
            assert(out@.map_values(|s: String| s@) =~= self.names@.take(i + 1).map_values(
                |s: String| s@,
            ));
            i = i + 1;
        }
        assert(self.names@.take(i as int) =~= self.names@);
        out
    }

    /// The listed names whose definition in effect is of the given kind.
    pub fn names_of_kind(&self, kind: NameKind) -> (r: Vec<String>)
        requires
            self.wf(),
        ensures
            r@.map_values(|s: String| s@) == self.spec_names().filter(
                |n: Seq<char>| self.names_kind(n, kind),
            ),
    {
        let ghost pred = |n: Seq<char>| self.names_kind(n, kind);
        let mut out: Vec<String> = Vec::new();
        let mut i: usize = 0;
        while i < self.names.len()
            invariant
                i <= self.names@.len(),
                self.wf(),
                pred == (|n: Seq<char>| self.names_kind(n, kind)),
                out@.map_values(|s: String| s@) == self.spec_names().take(i as int).filter(pred),
            decreases self.names@.len() - i,
        {
            reveal_with_fuel(Seq::<_>::filter, 1);
            let ghost names = self.spec_names();
            assert(names.take(i + 1).drop_last() =~= names.take(i as int));
            let name = self.names[i].as_str();
            let matches = match self.get(name) {
                Some(c) => match (&c.kind, kind) {
                    (CmdKind::Builtin(_), NameKind::Builtin) => true,
                    (CmdKind::Alias(_), NameKind::Alias) => true,
                    (CmdKind::Cvar(_), NameKind::Cvar) => true,
                    _ => false,
                },
                None => false,
            };
            if matches {
                out.push(self.names[i].clone());
            }
            assert(out@.map_values(|s: String| s@) =~= names.take(i + 1).filter(pred));
            i = i + 1;
        }
        assert(self.spec_names().take(i as int) =~= self.spec_names());
        out
    }

    /// The listed names that are commands.
    pub fn cmd_names(&self) -> (r: Vec<String>)
        requires
            self.wf(),
        ensures
            r@.map_values(|s: String| s@) == self.spec_names().filter(
                |n: Seq<char>| self.names_kind(n, NameKind::Builtin),
            ),
    {
        self.names_of_kind(NameKind::Builtin)
    }

    /// The listed names that are aliases.
    pub fn alias_names(&self) -> (r: Vec<String>)
        requires
            self.wf(),
        ensures
            r@.map_values(|s: String| s@) == self.spec_names().filter(
                |n: Seq<char>| self.names_kind(n, NameKind::Alias),
            ),
    {
        self.names_of_kind(NameKind::Alias)
    }

    /// The listed names that are cvars.
    pub fn cvar_names(&self) -> (r: Vec<String>)
        requires
            self.wf(),
        ensures
            r@.map_values(|s: String| s@) == self.spec_names().filter(
                |n: Seq<char>| self.names_kind(n, NameKind::Cvar),
            ),
    {
        self.names_of_kind(NameKind::Cvar)
    }

    /// The alias a listed name stands for, as the alias listing shows it.
    pub open spec fn alias_entry(self, name: Seq<char>) -> (Seq<char>, Seq<char>, Seq<char>) {
        let c = self.lookup(name).unwrap();
        (name, c.kind->Alias_0@, c.help@)
    }

    /// The listed names that are aliases, with their targets and help texts.
    pub fn aliases(&self) -> (r: Vec<AliasInfo>)
        requires
            self.wf(),
        ensures
            r@.map_values(|a: AliasInfo| (a.name@, a.target@, a.help@)) == self.spec_names().filter(
                |n: Seq<char>| self.names_kind(n, NameKind::Alias),
            ).map_values(|n: Seq<char>| self.alias_entry(n)),
    {
        let ghost pred = |n: Seq<char>| self.names_kind(n, NameKind::Alias);
        let ghost entry = |n: Seq<char>| self.alias_entry(n);
        let mut out: Vec<AliasInfo> = Vec::new();
        let mut i: usize = 0;
        while i < self.names.len()
            invariant
                i <= self.names@.len(),
                self.wf(),
                pred == (|n: Seq<char>| self.names_kind(n, NameKind::Alias)),
                entry == (|n: Seq<char>| self.alias_entry(n)),
                out@.map_values(|a: AliasInfo| (a.name@, a.target@, a.help@)) == self.spec_names().take(
                    i as int,
                ).filter(pred).map_values(entry),
            decreases self.names@.len() - i,
        {
            reveal_with_fuel(Seq::<_>::filter, 1);
            let ghost names = self.spec_names();
            assert(names.take(i + 1).drop_last() =~= names.take(i as int));
            let name = self.names[i].as_str();
            let ghost prev = out@;
            let ghost f = |a: AliasInfo| (a.name@, a.target@, a.help@);
            match self.get(name) {
                Some(c) => match &c.kind {
                    CmdKind::Alias(target) => {
                        out.push(
                            AliasInfo {
                                name: self.names[i].clone(),
                                target: target.clone(),
                                help: c.help.clone(),
                            },
                        );
                        assert(out@.map_values(f) =~= prev.map_values(f).push(f(out@.last())));
                        assert(names.take(i + 1).filter(pred) == names.take(i as int).filter(pred).push(
                            names[i as int],
                        ));
                        assert(names.take(i as int).filter(pred).push(names[i as int]).map_values(entry)
                            =~= names.take(i as int).filter(pred).map_values(entry).push(
                            entry(names[i as int]),
                        ));
                    },
                    _ => {},
                },
                None => {},
            }
            assert(out@.map_values(|a: AliasInfo| (a.name@, a.target@, a.help@)) =~= names.take(
                i + 1,
            ).filter(pred).map_values(entry));
            i = i + 1;
        }
        assert(self.spec_names().take(i as int) =~= self.spec_names());
        out
    }
}

} // verus!
