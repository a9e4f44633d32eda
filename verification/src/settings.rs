//! The plugin's declared settings schema and its live settings map.
//!
//! The schema is an ordered list of widget descriptors, fixed when the
//! plugin is loaded.  The live map is keyed by string with one value per
//! key; it is exchanged whole between the plugin, the UI and persistence, so
//! no torn intermediate state is ever observed.  Values form a closed tagged
//! union; the nested map and list kinds are declared but reserved, and every
//! boundary treats them as an explicit "unsupported" branch.  Float values
//! are carried opaquely as the bit pattern of a binary64 value.

use vstd::prelude::*;

verus! {

/// A value in the live settings map.
pub enum SettingValue {
    Bool(bool),
    I64(i64),
    F64(u64),
    Str(String),
    MapValue(SettingsMap),
    ListValue(Vec<SettingValue>),
}

/// The live settings map: string keys, one value per key, insertion order
/// kept only for iteration.
pub struct SettingsMap {
    pub entries: Vec<(String, SettingValue)>,
}

/// First value stored under `key`, if any.
pub open spec fn map_get(
    entries: Seq<(String, SettingValue)>,
    key: Seq<char>,
) -> Option<SettingValue>
    decreases entries.len(),
{
    if entries.len() == 0 {
        None
    } else if entries[0].0@ == key {
        Some(entries[0].1)
    } else {
        map_get(entries.subrange(1, entries.len() as int), key)
    }
}

pub open spec fn keys_unique(entries: Seq<(String, SettingValue)>) -> bool {
    forall|i: int, j: int|
        0 <= i < j < entries.len() ==> #[trigger] entries[i].0@ != #[trigger] entries[j].0@
}

/// Upsert: replace the value in place when the key is present (first
/// occurrence decides), append otherwise.
pub open spec fn upsert_entry(
    entries: Seq<(String, SettingValue)>,
    key: String,
    value: SettingValue,
) -> Seq<(String, SettingValue)>
    decreases entries.len(),
{
    if entries.len() == 0 {
        seq![(key, value)]
    } else if entries[0].0@ == key@ {
        seq![(entries[0].0, value)] + entries.subrange(1, entries.len() as int)
    } else {
        seq![entries[0]] + upsert_entry(entries.subrange(1, entries.len() as int), key, value)
    }
}

proof fn lemma_upsert_entry_found(
    entries: Seq<(String, SettingValue)>,
    key: String,
    value: SettingValue,
    i: int,
)
    requires
        0 <= i < entries.len(),
        entries[i].0@ == key@,
        forall|j: int| 0 <= j < i ==> #[trigger] entries[j].0@ != key@,
    ensures
        upsert_entry(entries, key, value) =~= entries.update(i, (entries[i].0, value)),
    decreases i,
{
    if i > 0 {
        lemma_upsert_entry_found(entries.subrange(1, entries.len() as int), key, value, i - 1);
    }
}

proof fn lemma_upsert_entry_absent(
    entries: Seq<(String, SettingValue)>,
    key: String,
    value: SettingValue,
)
    requires
        forall|j: int| 0 <= j < entries.len() ==> #[trigger] entries[j].0@ != key@,
    ensures
        upsert_entry(entries, key, value) =~= entries.push((key, value)),
    decreases entries.len(),
{
    if entries.len() > 0 {
        lemma_upsert_entry_absent(entries.subrange(1, entries.len() as int), key, value);
    }
}

/// The upsert keeps keys unique.
pub proof fn lemma_upsert_keeps_keys_unique(
    entries: Seq<(String, SettingValue)>,
    key: String,
    value: SettingValue,
)
    requires
        keys_unique(entries),
    ensures
        keys_unique(upsert_entry(entries, key, value)),
{
    if exists|i: int| 0 <= i < entries.len() && #[trigger] entries[i].0@ == key@ {
        let i = choose|i: int|
            0 <= i < entries.len() && #[trigger] entries[i].0@ == key@ && forall|j: int|
                0 <= j < i ==> #[trigger] entries[j].0@ != key@;
        assert(0 <= i < entries.len() && entries[i].0@ == key@ && forall|j: int|
            0 <= j < i ==> #[trigger] entries[j].0@ != key@) by {
            lemma_first_occurrence(entries, key@);
        }
        lemma_upsert_entry_found(entries, key, value, i);
    } else {
        lemma_upsert_entry_absent(entries, key, value);
    }
}

/// When some entry has this key, there is a first one.
proof fn lemma_first_occurrence(entries: Seq<(String, SettingValue)>, key: Seq<char>)
    requires
        exists|i: int| 0 <= i < entries.len() && #[trigger] entries[i].0@ == key,
    ensures
        exists|i: int|
            0 <= i < entries.len() && #[trigger] entries[i].0@ == key && forall|j: int|
                0 <= j < i ==> #[trigger] entries[j].0@ != key,
    decreases entries.len(),
{
    if entries.len() > 0 {
        if entries[0].0@ == key {
            assert(0 <= 0 < entries.len() && entries[0].0@ == key && forall|j: int|
                0 <= j < 0 ==> #[trigger] entries[j].0@ != key);
        } else {
            let rest = entries.subrange(1, entries.len() as int);
            let w = choose|i: int| 0 <= i < entries.len() && #[trigger] entries[i].0@ == key;
            assert(rest[w - 1].0@ == key);
            lemma_first_occurrence(rest, key);
            let i = choose|i: int|
                0 <= i < rest.len() && #[trigger] rest[i].0@ == key && forall|j: int|
                    0 <= j < i ==> #[trigger] rest[j].0@ != key;
            assert(entries[i + 1].0@ == key);
            assert forall|j: int| 1 <= j < i + 1 implies #[trigger] entries[j].0@ != key by {
                assert(rest[j - 1].0@ != key);
            }
        }
    }
}

impl SettingValue {
    pub open spec fn spec_to_bool(self) -> Option<bool> {
        match self {
            SettingValue::Bool(b) => Some(b),
            _ => None,
        }
    }

    /// The boolean carried by a boolean value; every other kind reads as
    /// "not a boolean".
    pub fn to_bool(&self) -> (r: Option<bool>)
        ensures
            r == self.spec_to_bool(),
    {
        match self {
            SettingValue::Bool(b) => Some(*b),
            _ => None,
        }
    }

    /// A value only the persisted scalar document can carry.
    pub open spec fn spec_is_scalar(self) -> bool {
        match self {
            SettingValue::Bool(_) => true,
            SettingValue::I64(_) => true,
            SettingValue::F64(_) => true,
            SettingValue::Str(_) => true,
            SettingValue::MapValue(_) => false,
            SettingValue::ListValue(_) => false,
        }
    }

    pub fn is_scalar(&self) -> (r: bool)
        ensures
            r == self.spec_is_scalar(),
    {
        match self {
            SettingValue::MapValue(_) => false,
            SettingValue::ListValue(_) => false,
            _ => true,
        }
    }
}

impl SettingsMap {
    pub open spec fn wf(self) -> bool {
        keys_unique(self.entries@)
    }

    pub open spec fn spec_get(self, key: Seq<char>) -> Option<SettingValue> {
        map_get(self.entries@, key)
    }

    pub fn new() -> (m: Self)
        ensures
            m.entries@.len() == 0,
            m.wf(),
    {
        SettingsMap { entries: Vec::new() }
    }

    pub fn len(&self) -> (n: usize)
        ensures
            n == self.entries@.len(),
    {
        self.entries.len()
    }

    /// The entry at a position, for whole-map iteration.
    pub fn entry_at(&self, i: usize) -> (e: &(String, SettingValue))
        requires
            i < self.entries@.len(),
        ensures
            *e == self.entries@[i as int],
    {
        &self.entries[i]
    }

    pub fn get(&self, key: &String) -> (r: Option<&SettingValue>)
        ensures
            match r {
                Some(v) => self.spec_get(key@) == Some(*v),
                None => self.spec_get(key@) is None,
            },
    {
        let mut i: usize = 0;
        let n = self.entries.len();
        while i < n
            invariant
                n == self.entries@.len(),
                i <= n,
                forall|j: int| 0 <= j < i ==> #[trigger] self.entries@[j].0@ != key@,
            decreases n - i,
        {
            if self.entries[i].0 == *key {
                proof {
                    lemma_map_get_found(self.entries@, key@, i as int);
                }
                return Some(&self.entries[i].1);
            }
            i += 1;
        }
        proof {
            lemma_map_get_absent(self.entries@, key@);
        }
        None
    }

    /// Upsert one value; the map stays well-formed.
    pub fn insert(&mut self, key: String, value: SettingValue)
        requires
            old(self).wf(),
        ensures
            final(self).entries@ == upsert_entry(old(self).entries@, key, value),
            final(self).wf(),
    {
        let mut i: usize = 0;
        let n = self.entries.len();
        while i < n
            invariant
                old(self).wf(),
                n == self.entries@.len(),
                i <= n,
                *self == *old(self),
                forall|j: int| 0 <= j < i ==> #[trigger] self.entries@[j].0@ != key@,
            decreases n - i,
        {
            if self.entries[i].0 == key {
                proof {
                    lemma_upsert_keeps_keys_unique(self.entries@, key, value);
                }
                let stored_key = self.entries[i].0.clone();
                self.entries.set(i, (stored_key, value));
                proof {
                    lemma_upsert_entry_found(old(self).entries@, key, value, i as int);
                }
                return ;
            }
            i += 1;
        }
        proof {
            lemma_upsert_keeps_keys_unique(self.entries@, key, value);
        }
        self.entries.push((key, value));
        proof {
            lemma_upsert_entry_absent(old(self).entries@, key, value);
        }
    }
}

/// When `key` first differs from every entry before `i` and matches at `i`,
/// the lookup returns that entry.
proof fn lemma_map_get_found(entries: Seq<(String, SettingValue)>, key: Seq<char>, i: int)
    requires
        0 <= i < entries.len(),
        entries[i].0@ == key,
        forall|j: int| 0 <= j < i ==> #[trigger] entries[j].0@ != key,
    ensures
        map_get(entries, key) == Some(entries[i].1),
    decreases i,
{
    if i > 0 {
        lemma_map_get_found(entries.subrange(1, entries.len() as int), key, i - 1);
    }
}

proof fn lemma_map_get_absent(entries: Seq<(String, SettingValue)>, key: Seq<char>)
    requires
        forall|j: int| 0 <= j < entries.len() ==> #[trigger] entries[j].0@ != key,
    ensures
        map_get(entries, key) is None,
    decreases entries.len(),
{
    if entries.len() > 0 {
        lemma_map_get_absent(entries.subrange(1, entries.len() as int), key);
    }
}

/// One widget the plugin declared: a key plus a kind with its default.
/// The boolean toggle is fully supported; the other kinds are declared but
/// not yet wired end to end.
pub enum WidgetKind {
    BooleanToggle { default_value: bool },
    Choice { default_option_key: String },
    FileSelect,
    SectionTitle { heading_level: u32 },
}

pub struct Widget {
    pub key: String,
    pub kind: WidgetKind,
}

/// What a boolean toggle shows for `key`: the stored boolean if the map has
/// one under that key, the widget's default otherwise.
pub open spec fn spec_effective_bool(
    entries: Seq<(String, SettingValue)>,
    key: Seq<char>,
    default_value: bool,
) -> bool {
    match map_get(entries, key) {
        Some(v) => match v.spec_to_bool() {
            Some(b) => b,
            None => default_value,
        },
        None => default_value,
    }
}

pub fn effective_bool(map: &SettingsMap, key: &String, default_value: bool) -> (r: bool)
    ensures
        r == spec_effective_bool(map.entries@, key@, default_value),
{
    match map.get(key) {
        Some(v) => match v.to_bool() {
            Some(b) => b,
            None => default_value,
        },
        None => default_value,
    }
}

/// The plugin's settings surface: the immutable schema and the live map,
/// exchanged whole under the instance's execution lock.
pub struct SettingsBridge {
    schema: Vec<Widget>,
    map: SettingsMap,
}

impl SettingsBridge {
    pub closed spec fn spec_schema(self) -> Seq<Widget> {
        self.schema@
    }

    pub closed spec fn spec_map(self) -> SettingsMap {
        self.map
    }

    pub open spec fn wf(self) -> bool {
        self.spec_map().wf()
    }

    pub fn new(schema: Vec<Widget>, initial: SettingsMap) -> (b: Self)
        requires
            initial.wf(),
        ensures
            b.spec_schema() == schema@,
            b.spec_map() == initial,
            b.wf(),
    {
        SettingsBridge { schema, map: initial }
    }

    /// The declared widgets, fixed at load time.
    pub fn settings_widgets(&self) -> (w: &Vec<Widget>)
        ensures
            w@ == self.spec_schema(),
    {
        &self.schema
    }

    /// A borrowed snapshot of the live map.
    pub fn settings_map(&self) -> (m: &SettingsMap)
        ensures
            *m == self.spec_map(),
    {
        &self.map
    }

    /// Whole-map replacement: the only way the map changes.
    pub fn set_settings_map(&mut self, map: SettingsMap)
        requires
            map.wf(),
        ensures
            final(self).spec_map() == map,
            final(self).spec_schema() == old(self).spec_schema(),
            final(self).wf(),
    {
        self.map = map;
    }
}

/// The `(key, shown value)` of every boolean toggle in the schema, in
/// order: the stored boolean where the map has one, the declared default
/// otherwise.  Widgets of any other kind contribute nothing — they are the
/// explicit "unsupported" branch of this boundary.
pub open spec fn spec_bool_toggles(
    schema: Seq<Widget>,
    entries: Seq<(String, SettingValue)>,
) -> Seq<(String, bool)>
    decreases schema.len(),
{
    if schema.len() == 0 {
        seq![]
    } else {
        let rest = spec_bool_toggles(schema.drop_last(), entries);
        match schema.last().kind {
            WidgetKind::BooleanToggle { default_value } => rest.push(
                (schema.last().key, spec_effective_bool(entries, schema.last().key@, default_value)),
            ),
            _ => rest,
        }
    }
}

pub open spec fn is_bool_toggle(w: Widget) -> bool {
    w.kind is BooleanToggle
}

/// Whether some boolean toggle of the schema declares `key`.
pub open spec fn schema_declares_bool(schema: Seq<Widget>, key: Seq<char>) -> bool {
    exists|i: int|
        0 <= i < schema.len() && is_bool_toggle(#[trigger] schema[i]) && schema[i].key@ == key
}

/// The boolean entries of the live map that no boolean toggle declares, in
/// map order, each with its current value.  Entries of other kinds
/// contribute nothing — again the explicit "unsupported" branch, never a
/// failure.
pub open spec fn undeclared_bool_entries(
    schema: Seq<Widget>,
    entries: Seq<(String, SettingValue)>,
) -> Seq<(String, bool)>
    decreases entries.len(),
{
    if entries.len() == 0 {
        seq![]
    } else {
        let rest = undeclared_bool_entries(schema, entries.drop_last());
        match entries.last().1 {
            SettingValue::Bool(b) => if !schema_declares_bool(schema, entries.last().0@) {
                rest.push((entries.last().0, b))
            } else {
                rest
            },
            _ => rest,
        }
    }
}

fn schema_has_bool_key(schema: &Vec<Widget>, key: &String) -> (r: bool)
    ensures
        r == schema_declares_bool(schema@, key@),
{
    let n = schema.len();
    let mut i: usize = 0;
    while i < n
        invariant
            n == schema@.len(),
            i <= n,
            forall|j: int|
                0 <= j < i ==> !(is_bool_toggle(#[trigger] schema@[j]) && schema@[j].key@ == key@),
        decreases n - i,
    {
        let w = &schema[i];
        if matches!(w.kind, WidgetKind::BooleanToggle { .. }) && w.key == *key {
            proof {
                assert(is_bool_toggle(schema@[i as int]) && schema@[i as int].key@ == key@);
            }
            return true;
        }
        i += 1;
    }
    false
}

impl SettingsBridge {
    /// The rows a boolean-only settings view shows: one row per declared
    /// toggle (stored value where the map has one, default otherwise),
    /// followed by every boolean entry of the live map that no toggle
    /// declares, with its current value — so no stored boolean is ever
    /// silently dropped at this boundary.
    pub fn bool_toggles(&self) -> (r: Vec<(String, bool)>)
        ensures
            r@ == spec_bool_toggles(self.spec_schema(), self.spec_map().entries@)
                + undeclared_bool_entries(self.spec_schema(), self.spec_map().entries@),
    {
        let mut r: Vec<(String, bool)> = Vec::new();
        let n = self.schema.len();
        let mut i: usize = 0;
        while i < n
            invariant
                n == self.schema@.len(),
                i <= n,
                r@ == spec_bool_toggles(self.schema@.take(i as int), self.map.entries@),
            decreases n - i,
        {
            let w = &self.schema[i];
            match &w.kind {
                WidgetKind::BooleanToggle { default_value } => {
                    let shown = effective_bool(&self.map, &w.key, *default_value);
                    r.push((w.key.clone(), shown));
                },
                _ => {},
            }
            proof {
                assert(self.schema@.take(i + 1).drop_last() =~= self.schema@.take(i as int));
                assert(self.schema@.take(i + 1).last() == self.schema@[i as int]);
            }
            i += 1;
        }
        proof {
            assert(self.schema@.take(n as int) =~= self.schema@);
        }
        let ghost toggles = r@;
        let m = self.map.len();
        let mut k: usize = 0;
        while k < m
            invariant
                m == self.map.entries@.len(),
                k <= m,
                toggles == spec_bool_toggles(self.schema@, self.map.entries@),
                r@ == toggles + undeclared_bool_entries(
                    self.schema@,
                    self.map.entries@.take(k as int),
                ),
            decreases m - k,
        {
            let entry = self.map.entry_at(k);
            match &entry.1 {
                SettingValue::Bool(b) => {
                    if !schema_has_bool_key(&self.schema, &entry.0) {
                        r.push((entry.0.clone(), *b));
                        proof {
                            assert(r@ =~= toggles + undeclared_bool_entries(
                                self.schema@,
                                self.map.entries@.take(k as int),
                            ).push((self.map.entries@[k as int].0, *b)));
                        }
                    }
                },
                _ => {},
            }
            proof {
                assert(self.map.entries@.take(k + 1).drop_last() =~= self.map.entries@.take(
                    k as int,
                ));
                assert(self.map.entries@.take(k + 1).last() == self.map.entries@[k as int]);
            }
            k += 1;
        }
        proof {
            assert(self.map.entries@.take(m as int) =~= self.map.entries@);
        }
        r
    }

    /// Fold edited boolean values back into the live map, one upsert per
    /// pair, first to last.
    pub fn apply_bool_values(&mut self, values: &Vec<(String, bool)>)
        requires
            old(self).wf(),
        ensures
            final(self).spec_map().entries@ == spec_apply_bools(
                old(self).spec_map().entries@,
                values@,
            ),
            final(self).spec_schema() == old(self).spec_schema(),
            final(self).wf(),
    {
        let n = values.len();
        let mut i: usize = 0;
        while i < n
            invariant
                n == values@.len(),
                i <= n,
                self.map.wf(),
                self.schema == old(self).schema,
                self.map.entries@ == spec_apply_bools(
                    old(self).map.entries@,
                    values@.take(i as int),
                ),
            decreases n - i,
        {
            let pair = &values[i];
            self.map.insert(pair.0.clone(), SettingValue::Bool(pair.1));
            proof {
                assert(values@.take(i + 1).drop_last() =~= values@.take(i as int));
                assert(values@.take(i + 1).last() == values@[i as int]);
            }
            i += 1;
        }
        proof {
            assert(values@.take(n as int) =~= values@);
        }
    }
}

/// The map after the edited booleans have been folded in, in order.
pub open spec fn spec_apply_bools(
    entries: Seq<(String, SettingValue)>,
    values: Seq<(String, bool)>,
) -> Seq<(String, SettingValue)>
    decreases values.len(),
{
    if values.len() == 0 {
        entries
    } else {
        upsert_entry(
            spec_apply_bools(entries, values.drop_last()),
            values.last().0,
            SettingValue::Bool(values.last().1),
        )
    }
}

} // verus!
