//! Round-robin assignment of voices from a fixed palette to users.

use std::collections::HashMap;
use vstd::prelude::*;
use vstd::std_specs::hash::{axiom_spec_keys_iter, spec_keys_iter};
use vstd::std_specs::iter::IteratorSpec;

verus! {

/// Hands each user a voice from a fixed palette, in turn.
///
/// The cursor walks the palette cyclically; removing a user forgets their
/// voice but never rewinds the cursor.
#[derive(Debug, Clone)]
pub struct VoiceAllocator {
    voices: Vec<char>,
    user_voices: HashMap<u64, char>,
    next_voice_index: usize,
}

impl VoiceAllocator {
    /// The palette of voices, in the order they are handed out.
    pub closed spec fn palette(&self) -> Seq<char> {
        self.voices@
    }

    /// The voice currently assigned to each user.
    pub closed spec fn assigned(&self) -> Map<u64, char> {
        self.user_voices@
    }

    /// The palette position of the next voice to hand out.
    pub closed spec fn cursor(&self) -> nat {
        self.next_voice_index as nat
    }

    /// The cursor stays inside the palette, and every assigned voice
    /// comes from the palette.
    pub closed spec fn wf(&self) -> bool {
        &&& self.voices@.len() == 0 ==> self.next_voice_index == 0
        &&& self.voices@.len() > 0 ==> self.next_voice_index < self.voices@.len()
        &&& forall|u: u64| #[trigger]
            self.user_voices@.contains_key(u) ==> self.voices@.contains(self.user_voices@[u])
    }

    /// An allocator over `voices` with nobody assigned yet.
    pub fn new(voices: Vec<char>) -> (r: Self)
        ensures
            r.wf(),
            r.palette() == voices@,
            r.assigned() == Map::<u64, char>::empty(),
            r.cursor() == 0,
    {
        Self { voices, user_voices: HashMap::new(), next_voice_index: 0 }
    }

    /// The voice of `user_id`; a user without one gets the voice under the
    /// cursor, and the cursor moves on cyclically.
    pub fn get_or_insert(&mut self, user_id: u64) -> (voice: char)
        requires
            old(self).wf(),
            old(self).assigned().contains_key(user_id) || old(self).palette().len() > 0,
        ensures
            final(self).wf(),
            final(self).palette() == old(self).palette(),
            old(self).assigned().contains_key(user_id) ==> {
                &&& voice == old(self).assigned()[user_id]
                &&& final(self).assigned() == old(self).assigned()
                &&& final(self).cursor() == old(self).cursor()
            },
            !old(self).assigned().contains_key(user_id) ==> {
                &&& voice == old(self).palette()[old(self).cursor() as int]
                &&& final(self).assigned() == old(self).assigned().insert(user_id, voice)
                &&& final(self).cursor() == (old(self).cursor() + 1) % old(self).palette().len()
            },
    {
        if let Some(voice) = self.user_voices.get(&user_id) {
            return *voice;
        }
        let voice = self.voices[self.next_voice_index];
        assert(self.voices@.contains(voice));
        self.user_voices.insert(user_id, voice);
        assert(self.next_voice_index < self.voices.len());
        self.next_voice_index = (self.next_voice_index + 1) % self.voices.len();
        voice
    }

    /// Forgets the voice of `user_id`; the cursor stays where it is.
    pub fn remove(&mut self, user_id: u64)
        requires
            old(self).wf(),
        ensures
            final(self).wf(),
            final(self).palette() == old(self).palette(),
            final(self).assigned() == old(self).assigned().remove(user_id),
            final(self).cursor() == old(self).cursor(),
    {
        self.user_voices.remove(&user_id);
    }

    /// Every user that currently has a voice, each once, in no set order.
    pub fn get_users(&self) -> (users: Vec<u64>)
        ensures
            users@.to_set() == self.assigned().dom(),
            users@.no_duplicates(),
    {
        let mut users: Vec<u64> = Vec::new();
        for k in it: self.user_voices.keys()
            invariant
                users@ == it.seq().take(it.index() as int).map_values(|k: &u64| *k),
                it.seq() == IteratorSpec::remaining(&spec_keys_iter(&self.user_voices)),
        {
            users.push(*k);
        }
        proof {
            axiom_spec_keys_iter(&self.user_voices);
            let keys = IteratorSpec::remaining(&spec_keys_iter(&self.user_voices));
            assert(users@ =~= keys.unref());
            assert(keys.unref().to_set() == self.user_voices@.dom());
        }
        users
    }
}

} // verus!
