//! Stream SETTINGS: a mapping from setting identifier to value with
//! id-wise override merge semantics.
//!
//! A SETTINGS frame carries the identifiers it wants to change and nothing
//! else; identifiers absent from an inbound frame keep their prior value. A
//! settings store is therefore held as the history of `(id, value)` entries
//! in arrival order — exactly what the wire carries — and its meaning is the
//! map in which the latest entry for an identifier wins.

use vstd::prelude::*;

verus! {

/// Identifier of the low-power preference setting.
pub const SETTING_LOW_POWER: u16 = 1;

/// Identifier of the maximum concurrent streams setting.
pub const SETTING_MAX_STREAMS: u16 = 2;

/// The map meant by a sequence of `(id, value)` entries: later entries
/// override earlier ones.
pub open spec fn map_of_entries(s: Seq<(u16, u64)>) -> Map<u16, u64>
    decreases s.len(),
{
    if s.len() == 0 {
        Map::empty()
    } else {
        map_of_entries(s.drop_last()).insert(s.last().0, s.last().1)
    }
}

/// Negotiated per-stream settings.
#[derive(Clone)]
pub struct StreamSettings {
    entries: Vec<(u16, u64)>,
}

impl View for StreamSettings {
    type V = Map<u16, u64>;

    closed spec fn view(&self) -> Map<u16, u64> {
        map_of_entries(self.entries@)
    }
}

/// The value an identifier takes in the merged view, if any entry set it.
proof fn lemma_lookup_step(s: Seq<(u16, u64)>, id: u16)
    requires
        s.len() > 0,
    ensures
        s.last().0 == id ==> map_of_entries(s).contains_key(id) && map_of_entries(s)[id]
            == s.last().1,
        s.last().0 != id ==> (map_of_entries(s).contains_key(id) <==> map_of_entries(
            s.drop_last(),
        ).contains_key(id)),
        s.last().0 != id && map_of_entries(s).contains_key(id) ==> map_of_entries(s)[id]
            == map_of_entries(s.drop_last())[id],
{
}

impl StreamSettings {
    /// No setting has been negotiated yet.
    pub fn new() -> (r: StreamSettings)
        ensures
            r@ == Map::<u16, u64>::empty(),
    {
        StreamSettings { entries: Vec::new() }
    }

    /// The value currently in force for `id`, if any.
    pub fn get(&self, id: u16) -> (r: Option<u64>)
        ensures
            r is Some <==> self@.contains_key(id),
            r is Some ==> r == Some(self@[id]),
    {
        let mut i: usize = self.entries.len();
        proof {
            assert(self.entries@.take(i as int) =~= self.entries@);
        }
        while i > 0
            invariant
                i <= self.entries.len(),
                map_of_entries(self.entries@).contains_key(id) <==> map_of_entries(
                    self.entries@.take(i as int),
                ).contains_key(id),
                map_of_entries(self.entries@).contains_key(id) ==> map_of_entries(
                    self.entries@,
                )[id] == map_of_entries(self.entries@.take(i as int))[id],
            decreases i,
        {
            proof {
                assert(self.entries@.take(i as int).drop_last() =~= self.entries@.take(
                    i as int - 1,
                ));
                lemma_lookup_step(self.entries@.take(i as int), id);
            }
            i = i - 1;
            let e = self.entries[i];
            if e.0 == id {
                return Some(e.1);
            }
        }
        proof {
            assert(self.entries@.take(0) =~= Seq::<(u16, u64)>::empty());
        }
        None
    }

    /// The value an identifier takes, or a default when it was never set.
    pub fn get_or(&self, id: u16, default: u64) -> (r: u64)
        ensures
            self@.contains_key(id) ==> r == self@[id],
            !self@.contains_key(id) ==> r == default,
    {
        match self.get(id) {
            Some(v) => v,
            None => default,
        }
    }

    /// The low-power preference downstream policy observes; `0` until set.
    pub fn low_power_preference(&self) -> (r: u64)
        ensures
            self@.contains_key(SETTING_LOW_POWER) ==> r == self@[SETTING_LOW_POWER],
            !self@.contains_key(SETTING_LOW_POWER) ==> r == 0,
    {
        self.get_or(SETTING_LOW_POWER, 0)
    }

    /// Set one identifier locally.
    pub fn set_value(&mut self, id: u16, value: u64)
        ensures
            final(self)@ == old(self)@.insert(id, value),
    {
        self.entries.push((id, value));
        proof {
            assert(self.entries@.drop_last() =~= old(self).entries@);
        }
    }

    /// Merge an inbound SETTINGS frame: exactly the identifiers present in
    /// `frame` override the current values; every other identifier keeps its
    /// prior value. Returns whether the low-power preference changed, so the
    /// caller can raise its `low_power_preference_changed` event.
    pub fn apply(&mut self, frame: &Vec<(u16, u64)>) -> (changed: bool)
        ensures
            final(self)@ == old(self)@.union_prefer_right(map_of_entries(frame@)),
            changed <==> spec_low_power(final(self)@) != spec_low_power(old(self)@),
    {
        let before = self.low_power_preference();
        let ghost m0 = self@;
        let mut i: usize = 0;
        while i < frame.len()
            invariant
                i <= frame.len(),
                self@ == m0.union_prefer_right(map_of_entries(frame@.take(i as int))),
            decreases frame.len() - i,
        {
            let e = frame[i];
            let ghost prev = self.entries@;
            self.entries.push(e);
            proof {
                assert(self.entries@.drop_last() =~= prev);
                assert(frame@.take(i as int + 1).drop_last() =~= frame@.take(i as int));
                assert(m0.union_prefer_right(map_of_entries(frame@.take(i as int))).insert(
                    e.0,
                    e.1,
                ) =~= m0.union_prefer_right(
                    map_of_entries(frame@.take(i as int)).insert(e.0, e.1),
                ));
            }
            i = i + 1;
        }
        proof {
            assert(frame@.take(frame@.len() as int) =~= frame@);
        }
        let after = self.low_power_preference();
        after != before
    }
}

/// Ingest one inbound SETTINGS frame from the wire: parse it and merge the
/// identifiers it carries. A malformed frame is reported and changes
/// nothing; on success the result says whether the low-power preference
/// changed, so the caller can raise its event.
pub fn handle_inbound_frame(settings: &mut StreamSettings, bytes: &Vec<u8>) -> (r: Result<
    bool,
    crate::NyxError,
>)
    ensures
        r is Ok <==> bytes@.len() % 10 == 0,
        r is Err ==> final(settings)@ == old(settings)@ && r == Result::<bool, crate::NyxError>::Err(
            crate::NyxError::FrameMalformed,
        ),
        r matches Ok(changed) ==> final(settings)@ == old(settings)@.union_prefer_right(
            map_of_entries(crate::frame::settings_entries_of(bytes@)),
        ) && (changed <==> spec_low_power(final(settings)@) != spec_low_power(old(settings)@)),
{
    let entries = match crate::frame::parse_settings_frame(bytes) {
        Ok(e) => e,
        Err(e) => {
            return Err(e);
        },
    };
    Ok(settings.apply(&entries))
}

impl StreamSettings {
    /// The entries whose merge is the current settings, ready to be put on
    /// the wire by `build_settings_frame`.
    pub fn to_frame_entries(&self) -> (r: Vec<(u16, u64)>)
        ensures
            map_of_entries(r@) == self@,
    {
        let n = self.entries.len();
        let mut out: Vec<(u16, u64)> = Vec::new();
        let mut i: usize = 0;
        while i < n
            invariant
                n == self.entries@.len(),
                i <= n,
                out@ == self.entries@.take(i as int),
            decreases n - i,
        {
            out.push(self.entries[i]);
            proof {
                assert(self.entries@.take(i as int + 1) =~= self.entries@.take(i as int).push(
                    self.entries@[i as int],
                ));
            }
            i = i + 1;
        }
        proof {
            assert(out@ =~= self.entries@);
        }
        out
    }
}

/// The low-power preference a settings map means: the mapped value, `0` when
/// absent.
pub open spec fn spec_low_power(m: Map<u16, u64>) -> u64 {
    if m.contains_key(SETTING_LOW_POWER) {
        m[SETTING_LOW_POWER]
    } else {
        0
    }
}

/// Merging frame `a` and then frame `b` is merging the id-wise override of
/// `b` onto `a`: identifiers present in `b` win, identifiers only in `a`
/// keep `a`'s value, and all others keep the prior settings' values.
pub proof fn lemma_merge_then_merge(m: Map<u16, u64>, a: Map<u16, u64>, b: Map<u16, u64>)
    ensures
        m.union_prefer_right(a).union_prefer_right(b) == m.union_prefer_right(
            a.union_prefer_right(b),
        ),
{
    assert(m.union_prefer_right(a).union_prefer_right(b) =~= m.union_prefer_right(
        a.union_prefer_right(b),
    ));
}

/// Merging an empty SETTINGS frame changes nothing.
pub proof fn lemma_merge_empty(m: Map<u16, u64>)
    ensures
        m.union_prefer_right(map_of_entries(Seq::<(u16, u64)>::empty())) == m,
{
    assert(m.union_prefer_right(map_of_entries(Seq::<(u16, u64)>::empty())) =~= m);
}

} // verus!
