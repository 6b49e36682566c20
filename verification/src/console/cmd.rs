use vstd::prelude::*;

verus! {

/// The edge of a key press that a `+`/`-` command reacts to.
#[derive(Clone, Copy, Debug, PartialEq, Eq, Structural)]
pub enum Trigger {
    /// The key went down (`+command`).
    Positive,
    /// The key came up (`-command`).
    Negative,
}

/// The opposite edge.
pub open spec fn opposite(t: Trigger) -> Trigger {
    match t {
        Trigger::Positive => Trigger::Negative,
        Trigger::Negative => Trigger::Positive,
    }
}

impl Trigger {
    /// The opposite edge.
    pub fn inverted(self) -> (r: Trigger)
        ensures
            r == opposite(self),
    {
        match self {
            Trigger::Positive => Trigger::Negative,
            Trigger::Negative => Trigger::Positive,
        }
    }
}

/// Whether a key went down or came up.
#[derive(Clone, Copy, Debug, PartialEq, Eq, Structural)]
pub enum KeyState {
    Pressed,
    Released,
}

/// The name of a console command, with the edge it was invoked with, if any.
#[derive(Clone, Debug)]
pub struct CmdName {
    pub trigger: Option<Trigger>,
    pub name: String,
}

impl CmdName {
    pub fn into_owned(self) -> (r: CmdName)
        ensures
            r.trigger == self.trigger,
            r.name@ == self.name@,
    {
        self
    }
}

impl From<String> for CmdName {
    fn from(s: String) -> (r: CmdName) {
        CmdName { trigger: None, name: s }
    }
}

impl vstd::std_specs::convert::FromSpecImpl<String> for CmdName {
    open spec fn obeys_from_spec() -> bool {
        true
    }

    open spec fn from_spec(s: String) -> CmdName {
        CmdName { trigger: None, name: s }
    }
}

/// The text of a command name: the edge's sign, if any, then the name.
pub open spec fn name_text(n: CmdName) -> Seq<char> {
    match n.trigger {
        Some(Trigger::Positive) => seq!['+'] + n.name@,
        Some(Trigger::Negative) => seq!['-'] + n.name@,
        None => n.name@,
    }
}

impl CmdName {
    /// The name as it is written: `+name`, `-name` or `name`.
    pub fn text(&self) -> (r: String)
        ensures
            r@ == name_text(*self),
    {
        proof {
            reveal_strlit("+");
            reveal_strlit("-");
        }
        match self.trigger {
            Some(Trigger::Positive) => {
                let mut s = String::from_str("+");
                s.append(self.name.as_str());
                s
            },
            Some(Trigger::Negative) => {
                let mut s = String::from_str("-");
                s.append(self.name.as_str());
                s
            },
            None => self.name.clone(),
        }
    }
}

/// A command invocation: the command's name and its arguments.
#[derive(Clone, Debug)]
pub struct RunCmd(pub CmdName, pub Vec<String>);

impl RunCmd {
    /// The command `name` invoked with no edge and no arguments.
    pub fn named(name: String) -> (r: RunCmd)
        ensures
            r.0.trigger is None,
            r.0.name@ == name@,
            r.1@.len() == 0,
    {
        RunCmd(CmdName { trigger: None, name }, Vec::new())
    }

    pub fn into_owned(self) -> (r: RunCmd)
        ensures
            r.0.trigger == self.0.trigger,
            r.0.name@ == self.0.name@,
            r.1@ == self.1@,
    {
        self
    }

    /// The same command invoked on the opposite edge; commands invoked
    /// without an edge have no opposite.
    pub fn invert(self) -> (r: Option<RunCmd>)
        ensures
            self.0.trigger is None ==> r is None,
            self.0.trigger matches Some(t) ==> (r matches Some(c) && c.0.trigger == Some(opposite(t))
                && c.0.name == self.0.name && c.1 == self.1),
    {
        match self.0.trigger {
            Some(t) => Some(RunCmd(CmdName { trigger: Some(t.inverted()), name: self.0.name }, self.1)),
            None => None,
        }
    }
}

/// What a key event bound to `cmd` runs: the command itself when the key
/// goes down, and its inverse (if it has one) when the key comes up.
pub fn bound_command(cmd: &RunCmd, state: KeyState) -> (r: Option<RunCmd>)
    requires
        cmd.0.trigger != Some(Trigger::Negative),
    ensures
        state == KeyState::Pressed ==> (r matches Some(c) && c.0.trigger == cmd.0.trigger
            && c.0.name@ == cmd.0.name@ && c.1@ == cmd.1@),
        state == KeyState::Released && cmd.0.trigger is None ==> r is None,
        state == KeyState::Released && cmd.0.trigger == Some(Trigger::Positive) ==> (r matches Some(
            c,
        ) && c.0.trigger == Some(Trigger::Negative) && c.0.name@ == cmd.0.name@ && c.1@ == cmd.1@),
{
    let copy = RunCmd(CmdName { trigger: cmd.0.trigger, name: cmd.0.name.clone() }, cmd.1.clone());
    match state {
        KeyState::Pressed => Some(copy),
        KeyState::Released => copy.invert(),
    }
}

/// Inverting a command twice gives back its edge: the opposite of the
/// opposite edge is the edge itself.
pub proof fn invert_twice(t: Trigger)
    ensures
        opposite(opposite(t)) == t,
{
}


/// The console's queue of commands after a command asks for `extra` to run
/// next: each extra command is put at the front of the queue in turn, so
/// they come out in reverse order, before what was already queued.
pub fn queue_extra_commands(queue: &mut Vec<RunCmd>, extra: Vec<RunCmd>)
    ensures
        final(queue)@ == extra@.reverse() + old(queue)@,
{
    let mut extra = extra;
    let ghost all = extra@;
    let ghost k: int = 0;
    while extra.len() > 0
        invariant
            0 <= k <= all.len(),
            extra@ == all.skip(k),
            queue@ == all.take(k).reverse() + old(queue)@,
        decreases extra@.len(),
    {
        let ghost before = extra@;
        let e = extra.remove(0);
        assert(extra@ =~= all.skip(k + 1));
        assert(e == all[k]);
        let ghost q0 = queue@;
        queue.insert(0, e);
        assert(all.take(k + 1).reverse() =~= seq![all[k]] + all.take(k).reverse());
        assert(queue@ =~= all.take(k + 1).reverse() + old(queue)@);
        proof {
            k = k + 1;
        }
    }
    assert(all.take(k) =~= all);
}

} // verus!
