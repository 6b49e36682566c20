//! Start-up of the client program: the console commands given on the
//! command line, and the render settings that console variables select.

use vstd::prelude::*;

use crate::text::{chars_of, string_of, views};

verus! {

/// The commands the command line asks for: each argument that starts with
/// `+` begins a command (without the `+`), and the arguments after it, up
/// to the next such argument, are appended to it, each after a space.
/// Arguments before the first command are skipped.
pub open spec fn startup_commands(args: Seq<Seq<char>>) -> Seq<Seq<char>>
    decreases args.len(),
{
    if args.len() == 0 {
        Seq::empty()
    } else {
        let init = startup_commands(args.drop_last());
        let last = args.last();
        if last.len() > 0 && last[0] == '+' {
            init.push(last.drop_first())
        } else if init.len() > 0 {
            init.update(init.len() - 1, init.last() + seq![' '] + last)
        } else {
            init
        }
    }
}

/// Groups the command-line arguments into console commands.
pub fn group_startup_commands(args: &[String]) -> (r: Vec<String>)
    ensures
        views(r@) == startup_commands(views(args@)),
{
    let mut done: Vec<String> = Vec::new();
    let mut current: Vec<char> = Vec::new();
    let mut open = false;
    let mut i: usize = 0;
    while i < args.len()
        invariant
            i <= args@.len(),
            open ==> views(done@).push(current@) == startup_commands(views(args@.take(i as int))),
            !open ==> views(done@) == startup_commands(views(args@.take(i as int)))
                && views(done@).len() == 0,
        decreases args@.len() - i,
    {
        let arg = args[i].as_str();
        let chars = chars_of(arg);
        let ghost prev = startup_commands(views(args@.take(i as int)));
        assert(views(args@.take(i + 1)).drop_last() =~= views(args@.take(i as int)));
        assert(views(args@.take(i + 1)).last() == arg@);
        if chars.len() > 0 && chars[0] == '+' {
            if open {
                let ghost before = views(done@);
                let finished = string_of(current.as_slice());
                done.push(finished);
                assert(views(done@) =~= before.push(current@));
            }
            current = Vec::new();
            let mut k: usize = 1;
            while k < chars.len()
                invariant
                    1 <= k <= chars@.len(),
                    current@ == chars@.subrange(1, k as int),
                decreases chars@.len() - k,
            {
                current.push(chars[k]);
                assert(current@ =~= chars@.subrange(1, k + 1));
                k = k + 1;
            }
            assert(current@ =~= arg@.drop_first());
            open = true;
            assert(views(done@).push(current@) =~= startup_commands(views(args@.take(i + 1))));
        } else if open {
            let ghost before = current@;
            current.push(' ');
            let mut k: usize = 0;
            while k < chars.len()
                invariant
                    k <= chars@.len(),
                    current@ == before + seq![' '] + chars@.take(k as int),
                decreases chars@.len() - k,
            {
                current.push(chars[k]);
                assert(current@ =~= before + seq![' '] + chars@.take(k + 1));
                k = k + 1;
            }
            assert(chars@.take(k as int) =~= arg@);
            assert(views(done@).push(current@) =~= prev.update(prev.len() - 1, prev.last() + seq![' '] + arg@));
        }
        i = i + 1;
    }
    assert(args@.take(i as int) =~= args@);
    if open {
        let ghost before = views(done@);
        let finished = string_of(current.as_slice());
        done.push(finished);
        assert(views(done@) =~= before.push(current@));
    }
    done
}

/// Tone mapping operators the renderer offers.
#[derive(Clone, Copy, Debug, PartialEq, Eq, Structural)]
pub enum Tonemapping {
    TonyMcMapface,
    AcesFitted,
    BlenderFilmic,
    SomewhatBoringDisplayTransform,
    Disabled,
}

/// The tone mapping that `r_tonemapping` names, if it names one.
pub fn tonemapping_named(name: &str) -> (r: Option<Tonemapping>)
    ensures
        r == if name@ == "tmmf"@ {
            Some(Tonemapping::TonyMcMapface)
        } else if name@ == "aces"@ {
            Some(Tonemapping::AcesFitted)
        } else if name@ == "blender"@ {
            Some(Tonemapping::BlenderFilmic)
        } else if name@ == "sbdt"@ {
            Some(Tonemapping::SomewhatBoringDisplayTransform)
        } else if name@ == "none"@ {
            Some(Tonemapping::Disabled)
        } else {
            None
        },
{
    if str_eq(name, "tmmf") {
        Some(Tonemapping::TonyMcMapface)
    } else if str_eq(name, "aces") {
        Some(Tonemapping::AcesFitted)
    } else if str_eq(name, "blender") {
        Some(Tonemapping::BlenderFilmic)
    } else if str_eq(name, "sbdt") {
        Some(Tonemapping::SomewhatBoringDisplayTransform)
    } else if str_eq(name, "none") {
        Some(Tonemapping::Disabled)
    } else {
        None
    }
}

/// Named exposure settings.
#[derive(Clone, Copy, Debug, PartialEq, Eq, Structural)]
pub enum ExposurePreset {
    Indoor,
    Blender,
    Sunlight,
    Overcast,
}

/// The exposure preset that `r_exposure` names, if it names one (otherwise
/// its value is read as a number).
pub fn exposure_named(name: &str) -> (r: Option<ExposurePreset>)
    ensures
        r == if name@ == "indoor"@ {
            Some(ExposurePreset::Indoor)
        } else if name@ == "blender"@ {
            Some(ExposurePreset::Blender)
        } else if name@ == "sunlight"@ {
            Some(ExposurePreset::Sunlight)
        } else if name@ == "overcast"@ {
            Some(ExposurePreset::Overcast)
        } else {
            None
        },
{
    if str_eq(name, "indoor") {
        Some(ExposurePreset::Indoor)
    } else if str_eq(name, "blender") {
        Some(ExposurePreset::Blender)
    } else if str_eq(name, "sunlight") {
        Some(ExposurePreset::Sunlight)
    } else if str_eq(name, "overcast") {
        Some(ExposurePreset::Overcast)
    } else {
        None
    }
}

/// What `r_autoexposure` says, when it is `on` or `off` (otherwise its
/// value is read as a boolean).
pub fn autoexposure_named(name: &str) -> (r: Option<bool>)
    ensures
        r == if name@ == "on"@ {
            Some(true)
        } else if name@ == "off"@ {
            Some(false)
        } else {
            None
        },
{
    if str_eq(name, "on") {
        Some(true)
    } else if str_eq(name, "off") {
        Some(false)
    } else {
        None
    }
}

/// What happens to a camera's automatic exposure.
#[derive(Clone, Copy, Debug, PartialEq, Eq, Structural)]
pub enum AutoExposureChange {
    Remove,
    Insert,
    Keep,
}

/// Automatic exposure is removed from a camera that has it when it is
/// disabled, and added to one without it when it is enabled.
pub fn autoexposure_change(present: bool, enabled: bool) -> (r: AutoExposureChange)
    ensures
        present && !enabled ==> r == AutoExposureChange::Remove,
        !present && enabled ==> r == AutoExposureChange::Insert,
        present == enabled ==> r == AutoExposureChange::Keep,
{
    if present && !enabled {
        AutoExposureChange::Remove
    } else if !present && enabled {
        AutoExposureChange::Insert
    } else {
        AutoExposureChange::Keep
    }
}

/// Whether two strings are equal.
pub fn str_eq(a: &str, b: &str) -> (r: bool)
    ensures
        r == (a@ == b@),
{
    let x = chars_of(a);
    let y = chars_of(b);
    if x.len() != y.len() {
        return false;
    }
    let mut i: usize = 0;
    while i < x.len()
        invariant
            i <= x@.len(),
            x@.len() == y@.len(),
            x@ == a@,
            y@ == b@,
            forall|j: int| 0 <= j < i ==> x@[j] == y@[j],
        decreases x@.len() - i,
    {
        if x[i] != y[i] {
            return false;
        }
        i = i + 1;
    }
    assert(x@ =~= y@);
    true
}

} // verus!
