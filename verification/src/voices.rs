//! Voices: one row of the trigger grid each, bound to an instrument, and the
//! collection that keeps all rows at the length of the grid.

use vstd::prelude::*;
use crate::grid::{
    decimated, decimated_len, interpolated, lemma_block_position, lemma_resized_len,
    lemma_resized_round_trip, lemma_resized_same, lemma_resized_appends, lemma_whole_factor,
    resized, silence,
};

verus! {

/// What a voice is: its label, its instrument binding, the note it plays and
/// its row of the grid.
pub struct VoiceView {
    pub name: Seq<char>,
    pub instrument_index: Option<usize>,
    pub channel: u8,
    pub note: u8,
    pub velocity: u8,
    pub slots: Seq<bool>,
}

impl VoiceView {
    /// The voice that `add_voice` appends to a grid of `n` slots: no name, no
    /// instrument, the percussion channel, full velocity, silence.
    pub open spec fn fresh(n: nat) -> VoiceView {
        VoiceView {
            name: Seq::empty(),
            instrument_index: None,
            channel: 9,
            note: 0,
            velocity: 127,
            slots: silence(n),
        }
    }

    /// This voice with its row changed from a grid of `p` slots to one of `n`.
    pub open spec fn resized(self, p: nat, n: nat) -> VoiceView {
        VoiceView { slots: resized(self.slots, p, n), ..self }
    }

    /// This voice with no instrument.
    pub open spec fn silenced(self) -> VoiceView {
        VoiceView { instrument_index: None, ..self }
    }

    /// This voice after the instrument at `removed` has left the renderer: a
    /// binding to it is cleared, a binding above it moves down by one.
    pub open spec fn reindexed(self, removed: usize) -> VoiceView {
        match self.instrument_index {
            Some(i) if i == removed => VoiceView { instrument_index: None, ..self },
            Some(i) if i > removed => VoiceView {
                instrument_index: Some((i - 1) as usize),
                ..self
            },
            _ => self,
        }
    }
}

/// One row of the grid.
#[derive(Debug)]
pub struct Voice {
    name: String,
    instrument_index: Option<usize>,
    channel: u8,
    note: u8,
    velocity: u8,
    slots: Vec<bool>,
}

impl View for Voice {
    type V = VoiceView;

    closed spec fn view(&self) -> VoiceView {
        VoiceView {
            name: self.name@,
            instrument_index: self.instrument_index,
            channel: self.channel,
            note: self.note,
            velocity: self.velocity,
            slots: self.slots@,
        }
    }
}

impl Voice {
    /// A voice without name or instrument, with `num_slots` silent slots.
    pub fn new(num_slots: usize) -> (voice: Voice)
        ensures
            voice@ == VoiceView::fresh(num_slots as nat),
    {
        let mut slots: Vec<bool> = Vec::with_capacity(num_slots);
        let mut i: usize = 0;
        while i < num_slots
            invariant
                i <= num_slots,
                slots@ == silence(i as nat),
            decreases num_slots - i,
        {
            slots.push(false);
            i += 1;
            assert(slots@ =~= silence(i as nat));
        }
        Voice {
            name: String::new(),
            instrument_index: None,
            channel: 9,
            note: 0,
            velocity: 127,
            slots,
        }
    }

    /// The voice with the given parts.
    pub fn from_parts(
        name: String,
        instrument_index: Option<usize>,
        channel: u8,
        note: u8,
        velocity: u8,
        slots: Vec<bool>,
    ) -> (voice: Voice)
        ensures
            voice@ == (VoiceView {
                name: name@,
                instrument_index,
                channel,
                note,
                velocity,
                slots: slots@,
            }),
    {
        Voice { name, instrument_index, channel, note, velocity, slots }
    }

    /// The label of the voice.
    pub fn name(&self) -> (r: &String)
        ensures
            r@ == self@.name,
    {
        &self.name
    }

    /// The instrument that the voice is bound to, if any.
    pub fn instrument_index(&self) -> (r: Option<usize>)
        ensures
            r == self@.instrument_index,
    {
        self.instrument_index
    }

    /// The channel on which the voice plays.
    pub fn channel(&self) -> (r: u8)
        ensures
            r == self@.channel,
    {
        self.channel
    }

    /// The note that the voice plays.
    pub fn note(&self) -> (r: u8)
        ensures
            r == self@.note,
    {
        self.note
    }

    /// The velocity with which the voice strikes its note.
    pub fn velocity(&self) -> (r: u8)
        ensures
            r == self@.velocity,
    {
        self.velocity
    }

    /// The row of the voice: one trigger flag per slot of the grid.
    pub fn slots(&self) -> (r: &Vec<bool>)
        ensures
            r@ == self@.slots,
    {
        &self.slots
    }

}

impl Clone for Voice {
    /// A copy of this voice, equal to it field by field.
    fn clone(&self) -> (copy: Voice)
        ensures
            copy@ == self@,
    {
        let mut slots: Vec<bool> = Vec::with_capacity(self.slots.len());
        let mut i: usize = 0;
        while i < self.slots.len()
            invariant
                i <= self.slots.len(),
                slots@ == self.slots@.take(i as int),
            decreases self.slots.len() - i,
        {
            slots.push(self.slots[i]);
            i += 1;
            assert(slots@ =~= self.slots@.take(i as int));
        }
        assert(slots@ =~= self.slots@);
        Voice {
            name: self.name.clone(),
            instrument_index: self.instrument_index,
            channel: self.channel,
            note: self.note,
            velocity: self.velocity,
            slots,
        }
    }

}

impl vstd::std_specs::cmp::PartialEqSpecImpl for Voice {
    open spec fn obeys_eq_spec() -> bool {
        true
    }

    open spec fn eq_spec(&self, other: &Voice) -> bool {
        self@ == other@
    }
}

impl PartialEq for Voice {
    /// Whether two voices are equal field by field.
    fn eq(&self, other: &Voice) -> (r: bool) {
        if !(self.name == other.name && self.instrument_index == other.instrument_index
            && self.channel == other.channel && self.note == other.note && self.velocity
            == other.velocity && self.slots.len() == other.slots.len()) {
            return false;
        }
        let mut i: usize = 0;
        while i < self.slots.len()
            invariant
                i <= self.slots.len(),
                self.slots.len() == other.slots.len(),
                self.slots@.take(i as int) == other.slots@.take(i as int),
            decreases self.slots.len() - i,
        {
            if self.slots[i] != other.slots[i] {
                return false;
            }
            i += 1;
            assert(self.slots@.take(i as int) =~= self.slots@.take(i - 1).push(self.slots@[i - 1]));
            assert(other.slots@.take(i as int) =~= other.slots@.take(i - 1).push(
                other.slots@[i - 1],
            ));
        }
        assert(self.slots@ =~= self.slots@.take(i as int));
        assert(other.slots@ =~= other.slots@.take(i as int));
        true
    }
}

/// Replaces each slot of the voice by itself and `factor - 1` silent slots.
pub fn interpolate_slots(voice: &mut Voice, factor: usize)
    requires
        factor >= 1 || old(voice)@.slots.len() == 0,
        old(voice)@.slots.len() * factor <= usize::MAX,
    ensures
        final(voice)@ == (VoiceView {
            slots: interpolated(old(voice)@.slots, factor as nat),
            ..old(voice)@
        }),
{
    let len = voice.slots.len();
    let mut out: Vec<bool> = Vec::new();
    let mut j: usize = 0;
    while j < len
        invariant
            j <= len,
            len == voice.slots@.len(),
            factor >= 1 || len == 0,
            out@.len() == j * factor,
            forall|i: int|
                0 <= i < out@.len() ==> out@[i] == (i % (factor as int) == 0 && voice.slots@[i / (
                factor as int)]),
        decreases len - j,
    {
        proof {
            lemma_block_position(j as int, 0, factor as int);
        }
        out.push(voice.slots[j]);
        let mut r: usize = 1;
        while r < factor
            invariant
                1 <= r <= factor,
                j < len,
                len == voice.slots@.len(),
                out@.len() == j * factor + r,
                forall|i: int|
                    0 <= i < out@.len() ==> out@[i] == (i % (factor as int) == 0 && voice.slots@[i
                        / (factor as int)]),
            decreases factor - r,
        {
            proof {
                lemma_block_position(j as int, r as int, factor as int);
            }
            out.push(false);
            r += 1;
        }
        j += 1;
        assert(out@.len() == j * factor) by (nonlinear_arith)
            requires
                out@.len() == (j - 1) * factor + factor,
        ;
    }
    assert(out@ =~= interpolated(voice.slots@, factor as nat));
    voice.slots = out;
}

/// Keeps every `factor`-th slot of the voice, starting with the first.
pub fn decimate_slots(voice: &mut Voice, factor: usize)
    requires
        factor >= 1,
    ensures
        final(voice)@ == (VoiceView {
            slots: decimated(old(voice)@.slots, factor as nat),
            ..old(voice)@
        }),
{
    let len = voice.slots.len();
    let mut out: Vec<bool> = Vec::new();
    let mut i: usize = 0;
    let mut done = len == 0;
    proof {
        assert(out@.len() * factor == 0) by (nonlinear_arith)
            requires
                out@.len() == 0,
        ;
        if len == 0 {
            lemma_block_position(0, factor - 1, factor as int);
        }
    }
    while !done
        invariant
            factor >= 1,
            len == voice.slots@.len(),
            !done ==> i == out@.len() * factor,
            !done ==> i < len,
            done ==> out@.len() == decimated_len(len as nat, factor as nat),
            forall|c: int| 0 <= c < out@.len() ==> out@[c] == voice.slots@[c * factor],
        decreases len - i, if done { 0int } else { 1int },
    {
        let ghost c = out@.len() as int;
        out.push(voice.slots[i]);
        if len - i <= factor {
            proof {
                assert((c + 1) * factor == c * factor + factor) by (nonlinear_arith);
                lemma_block_position(c + 1, len - i - 1, factor as int);
            }
            done = true;
        } else {
            assert((c + 1) * factor == c * factor + factor) by (nonlinear_arith);
            i += factor;
        }
    }
    assert(out@ =~= decimated(voice.slots@, factor as nat));
    voice.slots = out;
}

/// What a collection of voices is: the length of the grid and the voices in
/// their order.
pub struct VoicesView {
    pub num_slots: nat,
    pub voices: Seq<VoiceView>,
}

impl VoicesView {
    /// Every voice has exactly `num_slots` slots.
    pub open spec fn wf(self) -> bool {
        forall|i: int|
            0 <= i < self.voices.len() ==> (#[trigger] self.voices[i]).slots.len()
                == self.num_slots
    }

    /// The collection with every row changed to a grid of `n` slots.
    pub open spec fn resized(self, n: nat) -> VoicesView {
        VoicesView {
            num_slots: n,
            voices: Seq::new(
                self.voices.len(),
                |i: int| self.voices[i].resized(self.num_slots, n),
            ),
        }
    }

    /// The collection with no voice bound to an instrument.
    pub open spec fn silenced(self) -> VoicesView {
        VoicesView {
            num_slots: self.num_slots,
            voices: Seq::new(self.voices.len(), |i: int| self.voices[i].silenced()),
        }
    }

    /// The collection after the instrument at `removed` has left the renderer.
    pub open spec fn reindexed(self, removed: usize) -> VoicesView {
        VoicesView {
            num_slots: self.num_slots,
            voices: Seq::new(self.voices.len(), |i: int| self.voices[i].reindexed(removed)),
        }
    }

    /// The collection with the voice at `i` replaced by `voice`.
    pub open spec fn with_voice(self, i: int, voice: VoiceView) -> VoicesView {
        VoicesView { num_slots: self.num_slots, voices: self.voices.update(i, voice) }
    }
}

/// The voices of the machine, all of them rows of one grid.
#[derive(Debug)]
pub struct Voices {
    num_slots: usize,
    voices: Vec<Voice>,
}

impl View for Voices {
    type V = VoicesView;

    closed spec fn view(&self) -> VoicesView {
        VoicesView {
            num_slots: self.num_slots as nat,
            voices: Seq::new(self.voices@.len(), |i: int| self.voices@[i]@),
        }
    }
}

impl Voices {
    /// Every voice has exactly as many slots as the grid.
    pub open spec fn wf(&self) -> bool {
        self@.wf()
    }

    /// No voices, on a grid without slots.
    pub fn new() -> (voices: Voices)
        ensures
            voices@ == (VoicesView { num_slots: 0, voices: Seq::empty() }),
            voices.wf(),
    {
        let voices = Voices { num_slots: 0, voices: Vec::new() };
        assert(voices@.voices =~= Seq::empty());
        voices
    }

    /// The collection of the given voices on a grid of `num_slots` slots, or
    /// nothing where one of the voices has another number of slots.
    pub fn from_parts(num_slots: usize, voices: Vec<Voice>) -> (r: Option<Voices>)
        ensures
            match r {
                Some(v) => v.wf() && v@ == (VoicesView {
                    num_slots: num_slots as nat,
                    voices: Seq::new(voices@.len(), |i: int| voices@[i]@),
                }),
                None => exists|i: int|
                    0 <= i < voices@.len() && (#[trigger] voices@[i])@.slots.len() != num_slots,
            },
    {
        let mut i: usize = 0;
        while i < voices.len()
            invariant
                i <= voices.len(),
                forall|j: int| 0 <= j < i ==> (#[trigger] voices@[j])@.slots.len() == num_slots,
            decreases voices.len() - i,
        {
            if voices[i].slots.len() != num_slots {
                return None;
            }
            i += 1;
        }
        let r = Voices { num_slots, voices };
        assert forall|j: int| 0 <= j < r@.voices.len() implies (#[trigger] r@.voices[j]).slots.len()
            == num_slots by {
            assert(voices@[j]@.slots.len() == num_slots);
        }
        Some(r)
    }

    /// The length of the grid.
    pub fn num_slots(&self) -> (n: usize)
        ensures
            n == self@.num_slots,
    {
        self.num_slots
    }

    /// The number of voices.
    pub fn len(&self) -> (n: usize)
        ensures
            n == self@.voices.len(),
    {
        self.voices.len()
    }

    /// The voice at `index`, if there is one.
    pub fn voice(&self, index: usize) -> (voice: Option<&Voice>)
        ensures
            index < self@.voices.len() ==> voice.is_some() && voice.unwrap()@
                == self@.voices[index as int],
            index >= self@.voices.len() ==> voice.is_none(),
    {
        if index < self.voices.len() {
            Some(&self.voices[index])
        } else {
            None
        }
    }

}

impl Clone for Voices {
    /// A copy of the collection, equal to it voice by voice.
    fn clone(&self) -> (copy: Voices)
        ensures
            copy@ == self@,
    {
        let mut voices: Vec<Voice> = Vec::with_capacity(self.voices.len());
        let mut i: usize = 0;
        while i < self.voices.len()
            invariant
                i <= self.voices.len(),
                voices@.len() == i,
                forall|j: int| 0 <= j < i ==> (#[trigger] voices@[j])@ == self.voices@[j]@,
            decreases self.voices.len() - i,
        {
            voices.push(self.voices[i].clone());
            i += 1;
        }
        let copy = Voices { num_slots: self.num_slots, voices };
        assert(copy@.voices =~= self@.voices);
        copy
    }

}

impl vstd::std_specs::cmp::PartialEqSpecImpl for Voices {
    open spec fn obeys_eq_spec() -> bool {
        true
    }

    open spec fn eq_spec(&self, other: &Voices) -> bool {
        self@ == other@
    }
}

impl PartialEq for Voices {
    /// Whether two collections are equal: the same grid, the same voices in
    /// the same order.
    fn eq(&self, other: &Voices) -> (r: bool) {
        if self.num_slots != other.num_slots || self.voices.len() != other.voices.len() {
            assert(self@.voices.len() != other@.voices.len() || self@.num_slots
                != other@.num_slots);
            return false;
        }
        let mut i: usize = 0;
        while i < self.voices.len()
            invariant
                i <= self.voices.len(),
                self.voices.len() == other.voices.len(),
                forall|j: int| 0 <= j < i ==> (#[trigger] self.voices@[j])@ == other.voices@[j]@,
            decreases self.voices.len() - i,
        {
            if !(self.voices[i] == other.voices[i]) {
                assert(self@.voices[i as int] != other@.voices[i as int]);
                return false;
            }
            i += 1;
        }
        assert(self@.voices =~= other@.voices);
        true
    }

}

impl Default for Voices {
    /// No voices, on a grid without slots.
    fn default() -> (voices: Voices)
        ensures
            voices@ == (VoicesView { num_slots: 0, voices: Seq::empty() }),
            voices.wf(),
    {
        Voices::new()
    }
}

impl Voices {
    /// Changes the grid to `num_slots` slots and every row with it, by the
    /// rule of [`resized`]. With the length the grid has, nothing changes.
    pub fn set_num_slots(&mut self, num_slots: usize)
        requires
            old(self).wf(),
        ensures
            final(self)@ == old(self)@.resized(num_slots as nat),
            final(self).wf(),
    {
        let prev_num_slots = self.num_slots;
        self.num_slots = num_slots;
        proof {
            assert forall|i: int| 0 <= i < self.voices@.len() implies (
            #[trigger] self.voices@[i])@.slots.len() == prev_num_slots by {
                assert(old(self)@.voices[i].slots.len() == prev_num_slots);
            }
        }
        self.update_slots(prev_num_slots);
        proof {
            assert(final(self)@.voices =~= old(self)@.resized(num_slots as nat).voices);
            assert forall|i: int| 0 <= i < final(self)@.voices.len() implies (
            #[trigger] final(self)@.voices[i]).slots.len() == num_slots by {
                lemma_resized_len(
                    old(self)@.voices[i].slots,
                    prev_num_slots as nat,
                    num_slots as nat,
                );
            }
        }
    }

    /// Appends a voice with no name and no instrument, on channel 9, with
    /// note 0, velocity 127 and a silent row.
    pub fn add_voice(&mut self)
        ensures
            final(self)@ == (VoicesView {
                num_slots: old(self)@.num_slots,
                voices: old(self)@.voices.push(VoiceView::fresh(old(self)@.num_slots)),
            }),
            old(self).wf() ==> final(self).wf(),
    {
        let voice = Voice::new(self.num_slots);
        self.voices.push(voice);
        assert(final(self)@.voices =~= old(self)@.voices.push(
            VoiceView::fresh(old(self)@.num_slots),
        ));
    }

    /// Removes the voice at `index`. Fails, changing nothing, where there is
    /// no such voice.
    pub fn remove_voice(&mut self, index: usize) -> (r: Result<(), ()>)
        ensures
            index < old(self)@.voices.len() ==> r.is_ok() && final(self)@ == (VoicesView {
                num_slots: old(self)@.num_slots,
                voices: old(self)@.voices.remove(index as int),
            }),
            index >= old(self)@.voices.len() ==> r.is_err() && final(self)@ == old(self)@,
            old(self).wf() ==> final(self).wf(),
    {
        if index < self.voices.len() {
            self.voices.remove(index);
            assert(final(self)@.voices =~= old(self)@.voices.remove(index as int));
            Ok(())
        } else {
            Err(())
        }
    }

    /// Removes every voice; the grid keeps its length.
    pub fn clear(&mut self)
        ensures
            final(self)@ == (VoicesView {
                num_slots: old(self)@.num_slots,
                voices: Seq::empty(),
            }),
            final(self).wf(),
    {
        self.voices.clear();
        assert(final(self)@.voices =~= Seq::empty());
    }

    /// Names the voice at `voice_index`. Fails, changing nothing, where there
    /// is no such voice.
    pub fn set_voice_name(&mut self, voice_index: usize, name: String) -> (r: Result<(), ()>)
        ensures
            voice_index < old(self)@.voices.len() ==> r.is_ok() && final(self)@
                == old(self)@.with_voice(
                voice_index as int,
                VoiceView { name: name@, ..old(self)@.voices[voice_index as int] },
            ),
            voice_index >= old(self)@.voices.len() ==> r.is_err() && final(self)@ == old(self)@,
            old(self).wf() ==> final(self).wf(),
    {
        if voice_index < self.voices.len() {
            self.voices[voice_index].name = name;
            assert(final(self)@.voices =~= old(self)@.with_voice(
                voice_index as int,
                VoiceView { name: name@, ..old(self)@.voices[voice_index as int] },
            ).voices);
            Ok(())
        } else {
            Err(())
        }
    }

    /// Binds the voice at `voice_index` to an instrument, or to none. Fails,
    /// changing nothing, where there is no such voice.
    pub fn set_voice_instrument(
        &mut self,
        voice_index: usize,
        instrument_index: Option<usize>,
    ) -> (r: Result<(), ()>)
        ensures
            voice_index < old(self)@.voices.len() ==> r.is_ok() && final(self)@
                == old(self)@.with_voice(
                voice_index as int,
                VoiceView { instrument_index, ..old(self)@.voices[voice_index as int] },
            ),
            voice_index >= old(self)@.voices.len() ==> r.is_err() && final(self)@ == old(self)@,
            old(self).wf() ==> final(self).wf(),
    {
        if voice_index < self.voices.len() {
            self.voices[voice_index].instrument_index = instrument_index;
            assert(final(self)@.voices =~= old(self)@.with_voice(
                voice_index as int,
                VoiceView { instrument_index, ..old(self)@.voices[voice_index as int] },
            ).voices);
            Ok(())
        } else {
            Err(())
        }
    }

    /// Sets the note of the voice at `voice_index`. Fails, changing nothing,
    /// where there is no such voice.
    pub fn set_voice_note(&mut self, voice_index: usize, note: u8) -> (r: Result<(), ()>)
        ensures
            voice_index < old(self)@.voices.len() ==> r.is_ok() && final(self)@
                == old(self)@.with_voice(
                voice_index as int,
                VoiceView { note, ..old(self)@.voices[voice_index as int] },
            ),
            voice_index >= old(self)@.voices.len() ==> r.is_err() && final(self)@ == old(self)@,
            old(self).wf() ==> final(self).wf(),
    {
        if voice_index < self.voices.len() {
            self.voices[voice_index].note = note;
            assert(final(self)@.voices =~= old(self)@.with_voice(
                voice_index as int,
                VoiceView { note, ..old(self)@.voices[voice_index as int] },
            ).voices);
            Ok(())
        } else {
            Err(())
        }
    }

    /// Sets the velocity of the voice at `voice_index`. Fails, changing
    /// nothing, where there is no such voice.
    pub fn set_voice_velocity(&mut self, voice_index: usize, velocity: u8) -> (r: Result<(), ()>)
        ensures
            voice_index < old(self)@.voices.len() ==> r.is_ok() && final(self)@
                == old(self)@.with_voice(
                voice_index as int,
                VoiceView { velocity, ..old(self)@.voices[voice_index as int] },
            ),
            voice_index >= old(self)@.voices.len() ==> r.is_err() && final(self)@ == old(self)@,
            old(self).wf() ==> final(self).wf(),
    {
        if voice_index < self.voices.len() {
            self.voices[voice_index].velocity = velocity;
            assert(final(self)@.voices =~= old(self)@.with_voice(
                voice_index as int,
                VoiceView { velocity, ..old(self)@.voices[voice_index as int] },
            ).voices);
            Ok(())
        } else {
            Err(())
        }
    }

    /// Sets or clears the trigger at `slot_index` of the voice at
    /// `voice_index`. Fails, changing nothing, where there is no such voice
    /// or the voice has no such slot.
    pub fn set_slot(&mut self, voice_index: usize, slot_index: usize, enabled: bool) -> (r: Result<
        (),
        (),
    >)
        ensures
            (voice_index < old(self)@.voices.len() && slot_index < old(
                self,
            )@.voices[voice_index as int].slots.len()) ==> r.is_ok() && final(self)@ == old(
                self,
            )@.with_voice(
                voice_index as int,
                VoiceView {
                    slots: old(self)@.voices[voice_index as int].slots.update(
                        slot_index as int,
                        enabled,
                    ),
                    ..old(self)@.voices[voice_index as int]
                },
            ),
            !(voice_index < old(self)@.voices.len() && slot_index < old(
                self,
            )@.voices[voice_index as int].slots.len()) ==> r.is_err() && final(self)@ == old(
                self,
            )@,
            old(self).wf() ==> final(self).wf(),
    {
        if voice_index < self.voices.len() {
            if slot_index < self.voices[voice_index].slots.len() {
                self.voices[voice_index].slots[slot_index] = enabled;
                assert(final(self)@.voices =~= old(self)@.with_voice(
                    voice_index as int,
                    VoiceView {
                        slots: old(self)@.voices[voice_index as int].slots.update(
                            slot_index as int,
                            enabled,
                        ),
                        ..old(self)@.voices[voice_index as int]
                    },
                ).voices);
                Ok(())
            } else {
                Err(())
            }
        } else {
            Err(())
        }
    }

    /// Unbinds every voice from its instrument.
    pub fn set_all_to_silence(&mut self)
        ensures
            final(self)@ == old(self)@.silenced(),
            old(self).wf() ==> final(self).wf(),
    {
        let mut i: usize = 0;
        while i < self.voices.len()
            invariant
                i <= self.voices.len(),
                self.num_slots == old(self).num_slots,
                self.voices@.len() == old(self).voices@.len(),
                forall|j: int| 0 <= j < i ==> (#[trigger] self.voices@[j])@ == old(
                    self,
                ).voices@[j]@.silenced(),
                forall|j: int| i <= j < self.voices@.len() ==> #[trigger] self.voices@[j] == old(
                    self,
                ).voices@[j],
            decreases self.voices.len() - i,
        {
            self.voices[i].instrument_index = None;
            i += 1;
        }
        assert(final(self)@.voices =~= old(self)@.silenced().voices);
    }

    /// Follows the removal of the renderer's instrument at `removed_index`:
    /// a voice bound to it is unbound, a voice bound above it is bound one
    /// lower, every other voice is left as it is.
    pub fn reindex_instruments(&mut self, removed_index: usize)
        ensures
            final(self)@ == old(self)@.reindexed(removed_index),
            old(self).wf() ==> final(self).wf(),
    {
        let mut i: usize = 0;
        while i < self.voices.len()
            invariant
                i <= self.voices.len(),
                self.num_slots == old(self).num_slots,
                self.voices@.len() == old(self).voices@.len(),
                forall|j: int| 0 <= j < i ==> (#[trigger] self.voices@[j])@ == old(
                    self,
                ).voices@[j]@.reindexed(removed_index),
                forall|j: int| i <= j < self.voices@.len() ==> #[trigger] self.voices@[j] == old(
                    self,
                ).voices@[j],
            decreases self.voices.len() - i,
        {
            match self.voices[i].instrument_index {
                Some(instr_index) => {
                    if instr_index == removed_index {
                        self.voices[i].instrument_index = None;
                    } else if instr_index > removed_index {
                        self.voices[i].instrument_index = Some(instr_index - 1);
                    }
                },
                None => {},
            }
            i += 1;
        }
        assert(final(self)@.voices =~= old(self)@.reindexed(removed_index).voices);
    }

    /// Brings every row from a grid of `prev_num_slots` slots to the length
    /// that the collection now has.
    fn update_slots(&mut self, prev_num_slots: usize)
        requires
            forall|i: int|
                0 <= i < old(self).voices@.len() ==> (#[trigger] old(self).voices@[i])@.slots.len()
                    == prev_num_slots,
        ensures
            final(self).num_slots == old(self).num_slots,
            final(self).voices@.len() == old(self).voices@.len(),
            forall|i: int|
                0 <= i < old(self).voices@.len() ==> (#[trigger] final(self).voices@[i])@ == old(
                    self,
                ).voices@[i]@.resized(prev_num_slots as nat, old(self).num_slots as nat),
    {
        let num_slots = self.num_slots;
        if prev_num_slots == 0 || num_slots == 0 {
            self.update_slots_resize(num_slots);
            proof {
                assert forall|i: int| 0 <= i < old(self).voices@.len() implies (
                #[trigger] self.voices@[i])@ == old(self).voices@[i]@.resized(
                    prev_num_slots as nat,
                    num_slots as nat,
                ) by {
                    assert(self.voices@[i]@.slots =~= silence(num_slots as nat));
                }
            }
        } else if num_slots > prev_num_slots {
            if num_slots % prev_num_slots == 0 {
                proof {
                    lemma_whole_factor(num_slots as nat, prev_num_slots as nat);
                }
                self.update_slots_interleave(num_slots / prev_num_slots);
            } else {
                self.update_slots_append(num_slots - prev_num_slots)
            }
        } else if num_slots < prev_num_slots {
            if prev_num_slots % num_slots == 0 {
                proof {
                    lemma_whole_factor(prev_num_slots as nat, num_slots as nat);
                }
                self.update_slots_decimate(prev_num_slots / num_slots);
            } else {
                self.update_slots_cut_out(prev_num_slots - num_slots)
            }
        }
    }

    /// Interpolates every row by `factor`.
    fn update_slots_interleave(&mut self, factor: usize)
        requires
            factor >= 1,
            forall|i: int|
                0 <= i < old(self).voices@.len() ==> (#[trigger] old(self).voices@[i])@.slots.len()
                    * factor <= usize::MAX,
        ensures
            final(self).num_slots == old(self).num_slots,
            final(self).voices@.len() == old(self).voices@.len(),
            forall|i: int|
                0 <= i < old(self).voices@.len() ==> (#[trigger] final(self).voices@[i])@
                    == (VoiceView {
                    slots: interpolated(old(self).voices@[i]@.slots, factor as nat),
                    ..old(self).voices@[i]@
                }),
    {
        let mut i: usize = 0;
        while i < self.voices.len()
            invariant
                i <= self.voices.len(),
                factor >= 1,
                self.num_slots == old(self).num_slots,
                self.voices@.len() == old(self).voices@.len(),
                forall|j: int|
                    0 <= j < old(self).voices@.len() ==> (#[trigger] old(
                        self,
                    ).voices@[j])@.slots.len() * factor <= usize::MAX,
                forall|j: int|
                    0 <= j < i ==> (#[trigger] self.voices@[j])@ == (VoiceView {
                        slots: interpolated(old(self).voices@[j]@.slots, factor as nat),
                        ..old(self).voices@[j]@
                    }),
                forall|j: int| i <= j < self.voices@.len() ==> #[trigger] self.voices@[j] == old(
                    self,
                ).voices@[j],
            decreases self.voices.len() - i,
        {
            assert(self.voices@[i as int] == old(self).voices@[i as int]);
            interpolate_slots(&mut self.voices[i], factor);
            i += 1;
        }
    }

    /// Appends `number` silent slots to every row.
    fn update_slots_append(&mut self, number: usize)
        requires
            forall|i: int|
                0 <= i < old(self).voices@.len() ==> (#[trigger] old(self).voices@[i])@.slots.len()
                    + number <= usize::MAX,
        ensures
            final(self).num_slots == old(self).num_slots,
            final(self).voices@.len() == old(self).voices@.len(),
            forall|i: int|
                0 <= i < old(self).voices@.len() ==> (#[trigger] final(self).voices@[i])@
                    == (VoiceView {
                    slots: old(self).voices@[i]@.slots + silence(number as nat),
                    ..old(self).voices@[i]@
                }),
    {
        let mut i: usize = 0;
        while i < self.voices.len()
            invariant
                i <= self.voices.len(),
                self.num_slots == old(self).num_slots,
                self.voices@.len() == old(self).voices@.len(),
                forall|j: int|
                    0 <= j < old(self).voices@.len() ==> (#[trigger] old(
                        self,
                    ).voices@[j])@.slots.len() + number <= usize::MAX,
                forall|j: int|
                    0 <= j < i ==> (#[trigger] self.voices@[j])@ == (VoiceView {
                        slots: old(self).voices@[j]@.slots + silence(number as nat),
                        ..old(self).voices@[j]@
                    }),
                forall|j: int| i <= j < self.voices@.len() ==> #[trigger] self.voices@[j] == old(
                    self,
                ).voices@[j],
            decreases self.voices.len() - i,
        {
            assert(self.voices@[i as int] == old(self).voices@[i as int]);
            let ghost before = self.voices@[i as int]@.slots;
            let len = self.voices[i].slots.len();
            self.voices[i].slots.resize(len + number, false);
            assert(self.voices@[i as int]@.slots =~= before + silence(number as nat));
            i += 1;
        }
    }

    /// Decimates every row by `factor`.
    fn update_slots_decimate(&mut self, factor: usize)
        requires
            factor >= 1,
        ensures
            final(self).num_slots == old(self).num_slots,
            final(self).voices@.len() == old(self).voices@.len(),
            forall|i: int|
                0 <= i < old(self).voices@.len() ==> (#[trigger] final(self).voices@[i])@
                    == (VoiceView {
                    slots: decimated(old(self).voices@[i]@.slots, factor as nat),
                    ..old(self).voices@[i]@
                }),
    {
        let mut i: usize = 0;
        while i < self.voices.len()
            invariant
                i <= self.voices.len(),
                factor >= 1,
                self.num_slots == old(self).num_slots,
                self.voices@.len() == old(self).voices@.len(),
                forall|j: int|
                    0 <= j < i ==> (#[trigger] self.voices@[j])@ == (VoiceView {
                        slots: decimated(old(self).voices@[j]@.slots, factor as nat),
                        ..old(self).voices@[j]@
                    }),
                forall|j: int| i <= j < self.voices@.len() ==> #[trigger] self.voices@[j] == old(
                    self,
                ).voices@[j],
            decreases self.voices.len() - i,
        {
            assert(self.voices@[i as int] == old(self).voices@[i as int]);
            decimate_slots(&mut self.voices[i], factor);
            i += 1;
        }
    }

    /// Drops the last `number` slots of every row.
    fn update_slots_cut_out(&mut self, number: usize)
        requires
            forall|i: int|
                0 <= i < old(self).voices@.len() ==> (#[trigger] old(self).voices@[i])@.slots.len()
                    >= number,
        ensures
            final(self).num_slots == old(self).num_slots,
            final(self).voices@.len() == old(self).voices@.len(),
            forall|i: int|
                0 <= i < old(self).voices@.len() ==> (#[trigger] final(self).voices@[i])@
                    == (VoiceView {
                    slots: old(self).voices@[i]@.slots.take(
                        old(self).voices@[i]@.slots.len() - number,
                    ),
                    ..old(self).voices@[i]@
                }),
    {
        let mut i: usize = 0;
        while i < self.voices.len()
            invariant
                i <= self.voices.len(),
                self.num_slots == old(self).num_slots,
                self.voices@.len() == old(self).voices@.len(),
                forall|j: int|
                    0 <= j < old(self).voices@.len() ==> (#[trigger] old(
                        self,
                    ).voices@[j])@.slots.len() >= number,
                forall|j: int|
                    0 <= j < i ==> (#[trigger] self.voices@[j])@ == (VoiceView {
                        slots: old(self).voices@[j]@.slots.take(
                            old(self).voices@[j]@.slots.len() - number,
                        ),
                        ..old(self).voices@[j]@
                    }),
                forall|j: int| i <= j < self.voices@.len() ==> #[trigger] self.voices@[j] == old(
                    self,
                ).voices@[j],
            decreases self.voices.len() - i,
        {
            assert(self.voices@[i as int] == old(self).voices@[i as int]);
            let len = self.voices[i].slots.len();
            self.voices[i].slots.truncate(len - number);
            i += 1;
        }
    }

    /// Gives every row `size` slots: a longer row loses its tail, a shorter
    /// one is filled with silence.
    fn update_slots_resize(&mut self, size: usize)
        ensures
            final(self).num_slots == old(self).num_slots,
            final(self).voices@.len() == old(self).voices@.len(),
            forall|i: int|
                0 <= i < old(self).voices@.len() ==> (#[trigger] final(self).voices@[i])@
                    == (VoiceView {
                    slots: if size <= old(self).voices@[i]@.slots.len() {
                        old(self).voices@[i]@.slots.take(size as int)
                    } else {
                        old(self).voices@[i]@.slots + silence(
                            (size - old(self).voices@[i]@.slots.len()) as nat,
                        )
                    },
                    ..old(self).voices@[i]@
                }),
    {
        let mut i: usize = 0;
        while i < self.voices.len()
            invariant
                i <= self.voices.len(),
                self.num_slots == old(self).num_slots,
                self.voices@.len() == old(self).voices@.len(),
                forall|j: int|
                    0 <= j < i ==> (#[trigger] self.voices@[j])@ == (VoiceView {
                        slots: if size <= old(self).voices@[j]@.slots.len() {
                            old(self).voices@[j]@.slots.take(size as int)
                        } else {
                            old(self).voices@[j]@.slots + silence(
                                (size - old(self).voices@[j]@.slots.len()) as nat,
                            )
                        },
                        ..old(self).voices@[j]@
                    }),
                forall|j: int| i <= j < self.voices@.len() ==> #[trigger] self.voices@[j] == old(
                    self,
                ).voices@[j],
            decreases self.voices.len() - i,
        {
            assert(self.voices@[i as int] == old(self).voices@[i as int]);
            let ghost before = self.voices@[i as int]@.slots;
            self.voices[i].slots.resize(size, false);
            proof {
                if size > before.len() {
                    assert(self.voices@[i as int]@.slots =~= before + silence(
                        (size - before.len()) as nat,
                    ));
                }
            }
            i += 1;
        }
    }
}

/// Setting the grid to the length it has leaves every voice as it is; so
/// setting the same length twice gives what setting it once gives.
pub proof fn lemma_set_num_slots_idempotent(voices: VoicesView, n: nat)
    requires
        voices.wf(),
    ensures
        voices.resized(voices.num_slots) == voices,
        voices.resized(n).resized(n) == voices.resized(n),
{
    assert forall|i: int| 0 <= i < voices.voices.len() implies #[trigger] voices.resized(
        voices.num_slots,
    ).voices[i] == voices.voices[i] by {
        lemma_resized_same(voices.voices[i].slots, voices.num_slots);
    }
    assert(voices.resized(voices.num_slots).voices =~= voices.voices);
    let once = voices.resized(n);
    assert forall|i: int| 0 <= i < once.voices.len() implies #[trigger] once.resized(
        n,
    ).voices[i] == once.voices[i] by {
        lemma_resized_len(voices.voices[i].slots, voices.num_slots, n);
        lemma_resized_same(once.voices[i].slots, n);
    }
    assert(once.resized(n).voices =~= once.voices);
}

/// A grid of `p` slots that is set to `k * p` slots and back to `p` holds the
/// slots it had, bit for bit, for every `k` of at least one.
pub proof fn lemma_set_num_slots_round_trip(voices: VoicesView, k: nat)
    requires
        voices.wf(),
        k >= 1,
    ensures
        voices.resized(k * voices.num_slots).resized(voices.num_slots) == voices,
{
    let p = voices.num_slots;
    let grown = voices.resized(k * p);
    assert forall|i: int| 0 <= i < voices.voices.len() implies #[trigger] grown.resized(
        p,
    ).voices[i] == voices.voices[i] by {
        lemma_resized_round_trip(voices.voices[i].slots, p, k);
    }
    assert(grown.resized(p).voices =~= voices.voices);
}

/// A grid of `p` slots that grows to `n` slots, where `p` does not divide
/// `n`, keeps in every voice the `p` slots it had, followed by silence.
pub proof fn lemma_set_num_slots_appends(voices: VoicesView, n: nat)
    requires
        voices.wf(),
        voices.num_slots >= 1,
        n > voices.num_slots,
        n % voices.num_slots != 0,
    ensures
        voices.resized(n).voices.len() == voices.voices.len(),
        forall|i: int|
            0 <= i < voices.voices.len() ==> (#[trigger] voices.resized(n).voices[i]) == (VoiceView {
                slots: voices.voices[i].slots + silence((n - voices.num_slots) as nat),
                ..voices.voices[i]
            }),
        forall|i: int|
            0 <= i < voices.voices.len() ==> (#[trigger] voices.resized(n).voices[i]).slots.take(
                voices.num_slots as int,
            ) == voices.voices[i].slots,
{
    assert forall|i: int| 0 <= i < voices.voices.len() implies (#[trigger] voices.resized(
        n,
    ).voices[i]).slots.take(voices.num_slots as int) == voices.voices[i].slots by {
        lemma_resized_appends(voices.voices[i].slots, voices.num_slots, n);
    }
}

/// Resizing keeps the invariant: every voice has the new number of slots.
pub proof fn lemma_resized_wf(voices: VoicesView, n: nat)
    requires
        voices.wf(),
    ensures
        voices.resized(n).wf(),
{
    assert forall|i: int| 0 <= i < voices.voices.len() implies (#[trigger] voices.resized(
        n,
    ).voices[i]).slots.len() == n by {
        lemma_resized_len(voices.voices[i].slots, voices.num_slots, n);
    }
}

} // verus!
