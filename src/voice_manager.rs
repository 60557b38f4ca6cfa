//! The rolls users have chosen, and the voices generated from them.

use crate::voice::{voice_of, DectalkVoice};
use std::collections::HashMap;
use vstd::prelude::*;

verus! {

/// Why stored rolls could not be read or written.
#[derive(Debug, Clone, Copy, PartialEq, Eq, Structural)]
pub enum RollsError {
    /// The text is not a JSON object from user ids to rolls, or the rolls
    /// could not be written as one.
    InvalidJson,
}

#[verifier::external_type_specification]
#[verifier::external_body]
pub struct ExJsonError(serde_json::Error);

/// The rolls that a JSON object maps user ids to; `None` when the text is
/// not such an object.
pub uninterp spec fn parsed_rolls(text: Seq<char>) -> Option<Map<u64, u64>>;

/// Relies on `serde_json::from_str` into a `HashMap<u64, u64>`: whether it
/// succeeds, and the map it reads, depend on the text alone.
#[verifier::external_body]
fn rolls_from_json(text: &str) -> (r: Result<HashMap<u64, u64>, serde_json::Error>)
    ensures
        parsed_rolls(text@) == match r {
            Ok(m) => Some(m@),
            Err(_) => None::<Map<u64, u64>>,
        },
{
    serde_json::from_str(text)
}

/// Relies on `serde_json::to_string` of a `HashMap<u64, u64>`: it cannot
/// fail for integer keys and values, and writes a JSON object (keys as
/// quoted decimals, entries in the map's own unspecified order) that
/// `serde_json::from_str` reads back as the same map.
#[verifier::external_body]
fn rolls_to_json(rolls: &HashMap<u64, u64>) -> (r: Result<String, serde_json::Error>)
    ensures
        match r {
            Ok(s) => parsed_rolls(s@) == Some(rolls@),
            Err(_) => false,
        },
{
    serde_json::to_string(rolls)
}

/// The roll of `id`: the one it chose, else 0.
pub open spec fn roll_or_zero(rolls: Map<u64, u64>, id: u64) -> u64 {
    if rolls.contains_key(id) {
        rolls[id]
    } else {
        0
    }
}

/// Keeps each user's roll and caches the voice generated from it.
pub struct VoiceManager {
    voices: HashMap<u64, DectalkVoice>,
    rolls: HashMap<u64, u64>,
}

impl VoiceManager {
    /// The cached voices.
    pub closed spec fn voices(&self) -> Map<u64, DectalkVoice> {
        self.voices@
    }

    /// The chosen rolls.
    pub closed spec fn rolls(&self) -> Map<u64, u64> {
        self.rolls@
    }

    /// Every cached voice is the one generated from its user's current roll.
    pub open spec fn wf(&self) -> bool {
        forall|id: u64| #[trigger]
            self.voices().contains_key(id) ==> self.voices()[id] == voice_of(
                id,
                roll_or_zero(self.rolls(), id),
            )
    }

    /// No rolls and no cached voices.
    pub fn new() -> (r: Self)
        ensures
            r.wf(),
            r.voices() == Map::<u64, DectalkVoice>::empty(),
            r.rolls() == Map::<u64, u64>::empty(),
    {
        VoiceManager { voices: HashMap::new(), rolls: HashMap::new() }
    }

    /// The voice of `id` under its current roll, generated and cached on
    /// first use.
    pub fn get_voice(&mut self, id: u64) -> (voice: DectalkVoice)
        requires
            old(self).wf(),
        ensures
            final(self).wf(),
            voice == voice_of(id, roll_or_zero(old(self).rolls(), id)),
            final(self).rolls() == old(self).rolls(),
            final(self).voices() == old(self).voices().insert(id, voice),
    {
        if let Some(v) = self.voices.get(&id) {
            let voice = *v;
            assert(self.voices@.contains_key(id) && self.voices@[id] == voice);
            assert(self.voices() == self.voices@);
            assert(self.voices@.insert(id, voice) =~= self.voices@);
            return voice;
        }
        let roll: u64 = match self.rolls.get(&id) {
            Some(r) => *r,
            None => 0,
        };
        let voice = DectalkVoice::generate(id, roll);
        self.voices.insert(id, voice);
        assert(self.wf()) by {
            assert forall|u: u64| #[trigger] self.voices().contains_key(u) implies self.voices()[u]
                == voice_of(u, roll_or_zero(self.rolls(), u)) by {
                if u != id {
                    assert(old(self).voices().contains_key(u));
                }
            }
        }
        voice
    }

    /// Forgets the cached voice of `id`.
    pub fn clear_voice(&mut self, id: u64)
        requires
            old(self).wf(),
        ensures
            final(self).wf(),
            final(self).rolls() == old(self).rolls(),
            final(self).voices() == old(self).voices().remove(id),
    {
        self.voices.remove(&id);
        assert(self.wf()) by {
            assert forall|u: u64| #[trigger] self.voices().contains_key(u) implies self.voices()[u]
                == voice_of(u, roll_or_zero(self.rolls(), u)) by {
                assert(old(self).voices().contains_key(u));
            }
        }
    }

    /// Sets the roll of `id` and forgets its cached voice.
    pub fn set_roll(&mut self, id: u64, roll: u64)
        requires
            old(self).wf(),
        ensures
            final(self).wf(),
            final(self).rolls() == old(self).rolls().insert(id, roll),
            final(self).voices() == old(self).voices().remove(id),
    {
        self.clear_voice(id);
        self.rolls.insert(id, roll);
        assert(self.wf()) by {
            assert forall|u: u64| #[trigger] self.voices().contains_key(u) implies self.voices()[u]
                == voice_of(u, roll_or_zero(self.rolls(), u)) by {
                assert(u != id);
                assert(roll_or_zero(self.rolls(), u) == roll_or_zero(old(self).rolls(), u));
            }
        }
    }

    /// Replaces the rolls with those of a JSON object from user ids to
    /// rolls, and forgets every cached voice; on an error nothing changes.
    pub fn load_rolls(&mut self, json: &str) -> (r: Result<(), RollsError>)
        requires
            old(self).wf(),
        ensures
            final(self).wf(),
            match parsed_rolls(json@) {
                Some(rolls) => {
                    &&& r is Ok
                    &&& final(self).rolls() == rolls
                    &&& final(self).voices() == Map::<u64, DectalkVoice>::empty()
                },
                None => {
                    &&& r == Err::<(), RollsError>(RollsError::InvalidJson)
                    &&& final(self).rolls() == old(self).rolls()
                    &&& final(self).voices() == old(self).voices()
                },
            },
    {
        match rolls_from_json(json) {
            Ok(rolls) => {
                self.rolls = rolls;
                self.voices.clear();
                Ok(())
            },
            Err(_) => Err(RollsError::InvalidJson),
        }
    }

    /// The rolls as a JSON object from user ids to rolls, one that
    /// `load_rolls` reads back as the same rolls.
    pub fn save_rolls(&self) -> (r: Result<String, RollsError>)
        ensures
            r matches Ok(s) && parsed_rolls(s@) == Some(self.rolls()),
    {
        match rolls_to_json(&self.rolls) {
            Ok(s) => Ok(s),
            Err(_) => Err(RollsError::InvalidJson),
        }
    }

    /// The roll of `id`: the one it chose, else 0.
    pub fn roll(&self, id: u64) -> (r: u64)
        ensures
            r == roll_or_zero(self.rolls(), id),
    {
        match self.rolls.get(&id) {
            Some(r) => *r,
            None => 0,
        }
    }
}

} // verus!
