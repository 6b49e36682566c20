//! Sound: the events the mixer handles, the errors of loading sounds, and
//! the choice of which playing channels a start or stop replaces.

use vstd::prelude::*;

verus! {

#[verifier::external_type_specification]
#[verifier::external_body]
pub struct ExIoError(std::io::Error);

/// Errors of loading sounds and music.
#[derive(Debug)]
pub enum SoundError {
    /// No music track has the given name.
    NoSuchTrack(String),
    /// Reading the sound data failed.
    Io(std::io::Error),
    /// The virtual filesystem could not open the file; the message says why.
    Vfs(String),
}

/// The mixer plugin: it owns the music player, the listener and the mixer events.
pub struct RichterSoundPlugin;

/// Marks a playing channel as belonging to an entity.
#[derive(Clone, Copy, Debug, PartialEq, Eq, Structural)]
pub struct EntityChannel {
    id: usize,
}

impl EntityChannel {
    /// The entity the channel belongs to.
    pub closed spec fn spec_id(self) -> usize {
        self.id
    }

    pub fn new(id: usize) -> (r: EntityChannel)
        ensures
            r.spec_id() == id,
    {
        EntityChannel { id }
    }

    pub fn id(&self) -> (r: usize)
        ensures
            r == self.spec_id(),
    {
        self.id
    }
}

/// Stops the sound on one channel of an entity (or of no entity).
#[derive(Debug, Default, Clone, Copy, PartialEq, Eq, Structural)]
pub struct StopSound {
    pub ent_id: Option<usize>,
    pub ent_channel: i8,
}

/// Where music comes from: a named file or a CD track number.
#[derive(Debug, Clone)]
pub enum MusicSource {
    Named(String),
    TrackId(usize),
}

/// A playing channel as the mixer sees it: its channel number and the
/// entity it belongs to, if any.
#[derive(Clone, Copy, Debug, PartialEq, Eq, Structural)]
pub struct PlayingChannel {
    pub channel: i8,
    pub entity: Option<EntityChannel>,
}

/// Whether a start or stop on (`ent_id`, `ent_channel`) ends this channel:
/// the channel numbers agree and so do the entities, a channel of no entity
/// agreeing only with no entity.
pub open spec fn ends_channel(c: PlayingChannel, ent_id: Option<usize>, ent_channel: i8) -> bool {
    c.channel == ent_channel && match (c.entity, ent_id) {
        (Some(e), Some(id)) => e.spec_id() == id,
        (None, None) => true,
        _ => false,
    }
}

/// The positions, in order, of the channels that a start or stop on
/// (`ent_id`, `ent_channel`) despawns.
pub fn channels_to_stop(channels: &[PlayingChannel], ent_id: Option<usize>, ent_channel: i8) -> (r: Vec<usize>)
    ensures
        forall|k: int| 0 <= k < r@.len() ==> #[trigger] r@[k] < channels@.len() && ends_channel(
            channels@[r@[k] as int],
            ent_id,
            ent_channel,
        ),
        forall|j: int|
            0 <= j < channels@.len() && ends_channel(#[trigger] channels@[j], ent_id, ent_channel)
                ==> r@.contains(j as usize),
        forall|a: int, b: int| 0 <= a < b < r@.len() ==> r@[a] < r@[b],
{
    let mut out: Vec<usize> = Vec::new();
    let mut i: usize = 0;
    while i < channels.len()
        invariant
            i <= channels@.len(),
            forall|k: int| 0 <= k < out@.len() ==> #[trigger] out@[k] < i && ends_channel(
                channels@[out@[k] as int],
                ent_id,
                ent_channel,
            ),
            forall|j: int|
                0 <= j < i && ends_channel(#[trigger] channels@[j], ent_id, ent_channel)
                    ==> out@.contains(j as usize),
            forall|a: int, b: int| 0 <= a < b < out@.len() ==> out@[a] < out@[b],
        decreases channels@.len() - i,
    {
        let c = channels[i];
        let same_entity = match (c.entity, ent_id) {
            (Some(e), Some(id)) => e.id() == id,
            (None, None) => true,
            _ => false,
        };
        if c.channel == ent_channel && same_entity {
            let ghost before = out@;
            out.push(i);
            assert forall|j: int|
                0 <= j < i + 1 && ends_channel(#[trigger] channels@[j], ent_id, ent_channel)
                    implies out@.contains(j as usize) by {
                if j < i {
                    let k = choose|k: int| 0 <= k < before.len() && before[k] == j as usize;
                    assert(out@[k] == j as usize);
                } else {
                    assert(out@[before.len() as int] == j as usize);
                }
            }
        }
        i = i + 1;
    }
    out
}

/// The path of a sound file in the virtual filesystem.
pub fn sound_path(name: &str) -> (r: String)
    ensures
        r@ == "sound/"@ + name@,
{
    let mut s = String::from_str("sound/");
    s.append(name);
    s
}

} // verus!
