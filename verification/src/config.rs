//! The persisted autosplitter document and the codec between it and the
//! live settings map.
//!
//! Only the four scalar kinds are representable in the persisted form;
//! nested map and list entries are dropped during encoding, explicitly, so
//! the loss is visible at this boundary rather than silent.  Decoding never
//! fails: a missing or unreadable document falls back to "disabled, empty
//! map".  The surrounding binary turns this document into its stored textual
//! form and back; everything that decides what the document contains is
//! here.

use vstd::prelude::*;

use crate::settings::{keys_unique, SettingValue, SettingsMap};

verus! {

/// A scalar settings value as it appears in the persisted document.  The
/// float kind carries the bit pattern of a binary64 value, never
/// interpreted here.
pub enum SerializableSettingValue {
    Bool(bool),
    I64(i64),
    F64(u64),
    StringValue(String),
}

/// The persisted autosplitter document: the enabled flag plus the scalar
/// settings, one value per key.
pub struct AutosplitterConfig {
    pub enabled: bool,
    pub settings: Vec<(String, SerializableSettingValue)>,
}

/// Scalar values encode; nested values have no persisted form.
pub open spec fn spec_encode_value(v: SettingValue) -> Option<SerializableSettingValue> {
    match v {
        SettingValue::Bool(b) => Some(SerializableSettingValue::Bool(b)),
        SettingValue::I64(i) => Some(SerializableSettingValue::I64(i)),
        SettingValue::F64(bits) => Some(SerializableSettingValue::F64(bits)),
        SettingValue::Str(s) => Some(SerializableSettingValue::StringValue(s)),
        SettingValue::MapValue(_) => None,
        SettingValue::ListValue(_) => None,
    }
}

/// Every persisted value decodes.
pub open spec fn spec_decode_value(v: SerializableSettingValue) -> SettingValue {
    match v {
        SerializableSettingValue::Bool(b) => SettingValue::Bool(b),
        SerializableSettingValue::I64(i) => SettingValue::I64(i),
        SerializableSettingValue::F64(bits) => SettingValue::F64(bits),
        SerializableSettingValue::StringValue(s) => SettingValue::Str(s),
    }
}

pub open spec fn spec_encode_entries(
    s: Seq<(String, SettingValue)>,
) -> Seq<(String, SerializableSettingValue)>
    decreases s.len(),
{
    if s.len() == 0 {
        seq![]
    } else {
        let rest = spec_encode_entries(s.drop_last());
        match spec_encode_value(s.last().1) {
            Some(e) => rest.push((s.last().0, e)),
            None => rest,
        }
    }
}

pub open spec fn spec_decode_entries(
    s: Seq<(String, SerializableSettingValue)>,
) -> Seq<(String, SettingValue)>
    decreases s.len(),
{
    if s.len() == 0 {
        seq![]
    } else {
        spec_decode_entries(s.drop_last()).push(
            (s.last().0, spec_decode_value(s.last().1)),
        )
    }
}

/// The original map with its unsupported (nested) entries removed,
/// order kept.
pub open spec fn scalar_entries(s: Seq<(String, SettingValue)>) -> Seq<(String, SettingValue)>
    decreases s.len(),
{
    if s.len() == 0 {
        seq![]
    } else if s.last().1.spec_is_scalar() {
        scalar_entries(s.drop_last()).push(s.last())
    } else {
        scalar_entries(s.drop_last())
    }
}

/// Law: encoding then decoding a settings map never fails and yields exactly
/// the original map minus its unsupported (nested) entries — each dropped
/// entry is dropped alone, every other entry is left unchanged, in order.
pub proof fn lemma_codec_drops_exactly_nested(s: Seq<(String, SettingValue)>)
    ensures
        spec_decode_entries(spec_encode_entries(s)) =~= scalar_entries(s),
    decreases s.len(),
{
    if s.len() > 0 {
        lemma_codec_drops_exactly_nested(s.drop_last());
        let enc_d = spec_encode_entries(s.drop_last());
        if let Some(e) = spec_encode_value(s.last().1) {
            assert(enc_d.push((s.last().0, e)).drop_last() =~= enc_d);
            assert(enc_d.push((s.last().0, e)).last() == (s.last().0, e));
        }
    }
}

/// Law: a settings map containing only supported scalar kinds round-trips
/// through the persisted document unchanged.
pub proof fn lemma_scalar_map_round_trips(s: Seq<(String, SettingValue)>)
    requires
        forall|i: int| 0 <= i < s.len() ==> (#[trigger] s[i].1).spec_is_scalar(),
    ensures
        spec_decode_entries(spec_encode_entries(s)) =~= s,
{
    lemma_codec_drops_exactly_nested(s);
    lemma_scalar_entries_identity(s);
}

proof fn lemma_scalar_entries_identity(s: Seq<(String, SettingValue)>)
    requires
        forall|i: int| 0 <= i < s.len() ==> (#[trigger] s[i].1).spec_is_scalar(),
    ensures
        scalar_entries(s) =~= s,
    decreases s.len(),
{
    if s.len() > 0 {
        lemma_scalar_entries_identity(s.drop_last());
    }
}

pub open spec fn config_keys_unique(s: Seq<(String, SerializableSettingValue)>) -> bool {
    forall|i: int, j: int| 0 <= i < j < s.len() ==> #[trigger] s[i].0@ != #[trigger] s[j].0@
}

pub open spec fn entries_have_key(s: Seq<(String, SettingValue)>, k: Seq<char>) -> bool {
    exists|i: int| 0 <= i < s.len() && #[trigger] s[i].0@ == k
}

pub open spec fn config_has_key(s: Seq<(String, SerializableSettingValue)>, k: Seq<char>) -> bool {
    exists|i: int| 0 <= i < s.len() && #[trigger] s[i].0@ == k
}

/// Encoding keeps keys unique: the encoded keys are a subset of the map's.
proof fn lemma_encode_keeps_keys_unique(s: Seq<(String, SettingValue)>)
    requires
        keys_unique(s),
    ensures
        config_keys_unique(spec_encode_entries(s)),
        forall|k: Seq<char>|
            #[trigger] config_has_key(spec_encode_entries(s), k) ==> entries_have_key(s, k),
    decreases s.len(),
{
    if s.len() > 0 {
        let d = s.drop_last();
        assert(keys_unique(d)) by {
            assert(forall|i: int| 0 <= i < d.len() ==> d[i] == s[i]);
        }
        lemma_encode_keeps_keys_unique(d);
        let enc = spec_encode_entries(s);
        let enc_d = spec_encode_entries(d);
        assert forall|k: Seq<char>| #[trigger]
            config_has_key(enc, k) implies entries_have_key(s, k) by {
            let i = choose|i: int| 0 <= i < enc.len() && #[trigger] enc[i].0@ == k;
            if spec_encode_value(s.last().1) is Some && i == enc.len() - 1 {
                assert(s[s.len() - 1].0@ == k);
            } else {
                assert(enc_d[i].0@ == k);
                assert(config_has_key(enc_d, k));
                let j = choose|j: int| 0 <= j < d.len() && #[trigger] d[j].0@ == k;
                assert(s[j].0@ == k);
            }
        }
        if spec_encode_value(s.last().1) is Some {
            assert forall|i: int, j: int|
                0 <= i < j < enc.len() implies #[trigger] enc[i].0@ != #[trigger] enc[j].0@ by {
                if j == enc.len() - 1 {
                    assert(config_has_key(enc_d, enc[i].0@));
                    let w = choose|w: int| 0 <= w < d.len() && #[trigger] d[w].0@ == enc[i].0@;
                    assert(s[w].0@ == enc[i].0@);
                    assert(s[w].0@ != s[s.len() - 1].0@);
                }
            }
        }
    }
}

/// Decoding keeps keys unique: the decoded keys are exactly the document's,
/// in order.
proof fn lemma_decode_keeps_keys_unique(s: Seq<(String, SerializableSettingValue)>)
    requires
        config_keys_unique(s),
    ensures
        keys_unique(spec_decode_entries(s)),
        spec_decode_entries(s).len() == s.len(),
        forall|i: int|
            0 <= i < s.len() ==> #[trigger] spec_decode_entries(s)[i].0 == s[i].0,
    decreases s.len(),
{
    if s.len() > 0 {
        let d = s.drop_last();
        assert(config_keys_unique(d)) by {
            assert(forall|i: int| 0 <= i < d.len() ==> d[i] == s[i]);
        }
        lemma_decode_keeps_keys_unique(d);
    }
}

/// One persisted row per key: of duplicate keys in a raw row list, the
/// first occurrence wins and later ones are dropped.
pub open spec fn dedup_first(
    s: Seq<(String, SerializableSettingValue)>,
) -> Seq<(String, SerializableSettingValue)>
    decreases s.len(),
{
    if s.len() == 0 {
        seq![]
    } else {
        let rest = dedup_first(s.drop_last());
        if config_has_key(rest, s.last().0@) {
            rest
        } else {
            rest.push(s.last())
        }
    }
}

proof fn lemma_dedup_first_unique(s: Seq<(String, SerializableSettingValue)>)
    ensures
        config_keys_unique(dedup_first(s)),
    decreases s.len(),
{
    if s.len() > 0 {
        lemma_dedup_first_unique(s.drop_last());
        let rest = dedup_first(s.drop_last());
        if !config_has_key(rest, s.last().0@) {
            let r = rest.push(s.last());
            assert forall|i: int, j: int|
                0 <= i < j < r.len() implies #[trigger] r[i].0@ != #[trigger] r[j].0@ by {
                if j == r.len() - 1 {
                    if r[i].0@ == r[j].0@ {
                        assert(config_has_key(rest, s.last().0@));
                    }
                }
            }
        }
    }
}

fn config_contains_key(
    settings: &Vec<(String, SerializableSettingValue)>,
    key: &String,
) -> (r: bool)
    ensures
        r == config_has_key(settings@, key@),
{
    let n = settings.len();
    let mut i: usize = 0;
    while i < n
        invariant
            n == settings@.len(),
            i <= n,
            forall|j: int| 0 <= j < i ==> #[trigger] settings@[j].0@ != key@,
        decreases n - i,
    {
        if settings[i].0 == *key {
            proof {
                assert(config_has_key(settings@, key@));
            }
            return true;
        }
        i += 1;
    }
    false
}

impl AutosplitterConfig {
    pub open spec fn wf(self) -> bool {
        config_keys_unique(self.settings@)
    }

    /// Build the document from raw decoded rows — text straight from
    /// storage may repeat a key — establishing its one-value-per-key
    /// invariant: the first occurrence of each key wins.
    pub fn from_raw_entries(
        enabled: bool,
        raw: Vec<(String, SerializableSettingValue)>,
    ) -> (c: Self)
        ensures
            c.enabled == enabled,
            c.settings@ == dedup_first(raw@),
            c.wf(),
    {
        let ghost orig = raw@;
        let mut raw = raw;
        let mut settings: Vec<(String, SerializableSettingValue)> = Vec::new();
        let ghost mut i: int = 0;
        loop
            invariant_except_break
                0 <= i <= orig.len(),
                raw@ =~= orig.skip(i),
                settings@ == dedup_first(orig.take(i)),
            ensures
                settings@ == dedup_first(orig),
            decreases raw.len(),
        {
            if raw.len() == 0 {
                proof {
                    assert(orig.take(i) =~= orig);
                }
                break ;
            }
            let entry = raw.remove(0);
            proof {
                assert(entry == orig[i]);
                assert(raw@ =~= orig.skip(i + 1));
            }
            if !config_contains_key(&settings, &entry.0) {
                settings.push(entry);
            }
            proof {
                assert(orig.take(i + 1).drop_last() =~= orig.take(i));
                assert(orig.take(i + 1).last() == orig[i]);
                i = i + 1;
            }
        }
        proof {
            lemma_dedup_first_unique(orig);
        }
        AutosplitterConfig { enabled, settings }
    }

    /// An absent document reads as this default: disabled, no settings.
    pub fn new_default() -> (c: Self)
        ensures
            !c.enabled,
            c.settings@.len() == 0,
            c.wf(),
    {
        AutosplitterConfig { enabled: false, settings: Vec::new() }
    }

    /// Encode the live map for persistence.  Every scalar entry is written
    /// out in order; every nested entry is dropped, visibly, right here.
    pub fn encode(enabled: bool, map: &SettingsMap) -> (c: Self)
        requires
            map.wf(),
        ensures
            c.enabled == enabled,
            c.settings@ == spec_encode_entries(map.entries@),
            c.wf(),
    {
        let mut settings: Vec<(String, SerializableSettingValue)> = Vec::new();
        let n = map.len();
        let mut i: usize = 0;
        while i < n
            invariant
                map.wf(),
                n == map.entries@.len(),
                i <= n,
                settings@ == spec_encode_entries(map.entries@.take(i as int)),
            decreases n - i,
        {
            let entry = map.entry_at(i);
            match &entry.1 {
                SettingValue::Bool(b) => {
                    settings.push((entry.0.clone(), SerializableSettingValue::Bool(*b)));
                },
                SettingValue::I64(v) => {
                    settings.push((entry.0.clone(), SerializableSettingValue::I64(*v)));
                },
                SettingValue::F64(bits) => {
                    settings.push((entry.0.clone(), SerializableSettingValue::F64(*bits)));
                },
                SettingValue::Str(s) => {
                    settings.push(
                        (entry.0.clone(), SerializableSettingValue::StringValue(s.clone())),
                    );
                },
                SettingValue::MapValue(_) => {},
                SettingValue::ListValue(_) => {},
            }
            proof {
                assert(map.entries@.take(i + 1).drop_last() =~= map.entries@.take(i as int));
                assert(map.entries@.take(i + 1).last() == map.entries@[i as int]);
            }
            i += 1;
        }
        proof {
            assert(map.entries@.take(n as int) =~= map.entries@);
            lemma_encode_keeps_keys_unique(map.entries@);
        }
        AutosplitterConfig { enabled, settings }
    }

    /// Decode the persisted settings back into a live map.
    pub fn get_settings_map(&self) -> (m: SettingsMap)
        requires
            self.wf(),
        ensures
            m.entries@ == spec_decode_entries(self.settings@),
            m.wf(),
    {
        let mut entries: Vec<(String, SettingValue)> = Vec::new();
        let n = self.settings.len();
        let mut i: usize = 0;
        while i < n
            invariant
                self.wf(),
                n == self.settings@.len(),
                i <= n,
                entries@ == spec_decode_entries(self.settings@.take(i as int)),
            decreases n - i,
        {
            let entry = &self.settings[i];
            match &entry.1 {
                SerializableSettingValue::Bool(b) => {
                    entries.push((entry.0.clone(), SettingValue::Bool(*b)));
                },
                SerializableSettingValue::I64(v) => {
                    entries.push((entry.0.clone(), SettingValue::I64(*v)));
                },
                SerializableSettingValue::F64(bits) => {
                    entries.push((entry.0.clone(), SettingValue::F64(*bits)));
                },
                SerializableSettingValue::StringValue(s) => {
                    entries.push((entry.0.clone(), SettingValue::Str(s.clone())));
                },
            }
            proof {
                assert(self.settings@.take(i + 1).drop_last() =~= self.settings@.take(i as int));
                assert(self.settings@.take(i + 1).last() == self.settings@[i as int]);
            }
            i += 1;
        }
        proof {
            assert(self.settings@.take(n as int) =~= self.settings@);
            lemma_decode_keeps_keys_unique(self.settings@);
        }
        SettingsMap { entries }
    }
}

/// Restore `(enabled, live map)` from a document that may be missing or may
/// have failed to parse.  Never raises: the fallback is disabled with an
/// empty map.
pub fn decode_or_default(doc: Option<&AutosplitterConfig>) -> (r: (bool, SettingsMap))
    requires
        doc matches Some(c) ==> c.wf(),
    ensures
        match doc {
            Some(c) => r.0 == c.enabled && r.1.entries@ == spec_decode_entries(c.settings@),
            None => !r.0 && r.1.entries@.len() == 0,
        },
        r.1.wf(),
{
    match doc {
        Some(c) => (c.enabled, c.get_settings_map()),
        None => (false, SettingsMap::new()),
    }
}

/// Host-wide preferences persisted between runs.
pub struct GlobalConfig {
    pub active_profile: Option<String>,
    pub known_directories: Vec<String>,
    pub autosave_splits: bool,
}

impl Default for GlobalConfig {
    fn default() -> (c: Self)
        ensures
            c.active_profile is None,
            c.known_directories@.len() == 0,
            c.autosave_splits,
    {
        GlobalConfig { active_profile: None, known_directories: Vec::new(), autosave_splits: true }
    }
}

} // verus!
