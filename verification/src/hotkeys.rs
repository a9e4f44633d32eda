//! Hotkey bindings: which action each key string stands for.
//!
//! The platform hook that grabs keys system-wide lives outside this crate;
//! it is handed the parsed key (as its numeric id) and reports key presses
//! back.  This module owns the mapping between actions, key strings and key
//! ids that those callbacks consult.

use vstd::prelude::*;

verus! {

/// Everything a global hotkey can do to the timer.
#[derive(Clone, Copy, PartialEq, Eq, Structural, Debug)]
pub enum HotkeyAction {
    StartSplit,
    Pause,
    Unpause,
    TogglePause,
    Reset,
    OpenSettings,
    ToggleTimingMethod,
}

impl HotkeyAction {
    /// The name the settings menu shows for this action.
    pub fn label(&self) -> (r: String)
        ensures
            match self {
                HotkeyAction::StartSplit => r@ == "Start/Split"@,
                HotkeyAction::Pause => r@ == "Pause"@,
                HotkeyAction::Unpause => r@ == "Unpause"@,
                HotkeyAction::TogglePause => r@ == "Toggle Paused"@,
                HotkeyAction::Reset => r@ == "Reset"@,
                HotkeyAction::OpenSettings => r@ == "Open Settings Window"@,
                HotkeyAction::ToggleTimingMethod => r@ == "Toggle Timing Method (Switches IGT/RTA)"@,
            },
    {
        match self {
            HotkeyAction::StartSplit => String::from_str("Start/Split"),
            HotkeyAction::Pause => String::from_str("Pause"),
            HotkeyAction::Unpause => String::from_str("Unpause"),
            HotkeyAction::TogglePause => String::from_str("Toggle Paused"),
            HotkeyAction::Reset => String::from_str("Reset"),
            HotkeyAction::OpenSettings => String::from_str("Open Settings Window"),
            HotkeyAction::ToggleTimingMethod => String::from_str(
                "Toggle Timing Method (Switches IGT/RTA)",
            ),
        }
    }
}

/// The key string bound to `a`, if any.
pub open spec fn spec_hotkey_string(
    m: Seq<(HotkeyAction, String)>,
    a: HotkeyAction,
) -> Option<String>
    decreases m.len(),
{
    if m.len() == 0 {
        None
    } else if m[0].0 == a {
        Some(m[0].1)
    } else {
        spec_hotkey_string(m.subrange(1, m.len() as int), a)
    }
}

pub open spec fn upsert_binding(
    m: Seq<(HotkeyAction, String)>,
    a: HotkeyAction,
    s: String,
) -> Seq<(HotkeyAction, String)>
    decreases m.len(),
{
    if m.len() == 0 {
        seq![(a, s)]
    } else if m[0].0 == a {
        seq![(a, s)] + m.subrange(1, m.len() as int)
    } else {
        seq![m[0]] + upsert_binding(m.subrange(1, m.len() as int), a, s)
    }
}

/// Drop the first binding of `a`, if any.
pub open spec fn remove_binding(
    m: Seq<(HotkeyAction, String)>,
    a: HotkeyAction,
) -> Seq<(HotkeyAction, String)>
    decreases m.len(),
{
    if m.len() == 0 {
        m
    } else if m[0].0 == a {
        m.subrange(1, m.len() as int)
    } else {
        seq![m[0]] + remove_binding(m.subrange(1, m.len() as int), a)
    }
}

/// The action bound to key id `id`, if any.
pub open spec fn spec_key_action(m: Seq<(u32, HotkeyAction)>, id: u32) -> Option<HotkeyAction>
    decreases m.len(),
{
    if m.len() == 0 {
        None
    } else if m[0].0 == id {
        Some(m[0].1)
    } else {
        spec_key_action(m.subrange(1, m.len() as int), id)
    }
}

pub open spec fn upsert_key(
    m: Seq<(u32, HotkeyAction)>,
    id: u32,
    a: HotkeyAction,
) -> Seq<(u32, HotkeyAction)>
    decreases m.len(),
{
    if m.len() == 0 {
        seq![(id, a)]
    } else if m[0].0 == id {
        seq![(id, a)] + m.subrange(1, m.len() as int)
    } else {
        seq![m[0]] + upsert_key(m.subrange(1, m.len() as int), id, a)
    }
}

/// One binding per action.
pub open spec fn actions_unique(m: Seq<(HotkeyAction, String)>) -> bool {
    forall|i: int, j: int| 0 <= i < j < m.len() ==> (#[trigger] m[i]).0 != (#[trigger] m[j]).0
}

/// One action per parsed key id.
pub open spec fn ids_unique(m: Seq<(u32, HotkeyAction)>) -> bool {
    forall|i: int, j: int| 0 <= i < j < m.len() ==> (#[trigger] m[i]).0 != (#[trigger] m[j]).0
}

/// The binding tables behind the platform hook: per action its key string,
/// and per parsed key id its action (the id table is consulted only by the
/// backend that reports events by id).
pub struct HotkeyBindings {
    pub string_map: Vec<(HotkeyAction, String)>,
    pub key_map: Vec<(u32, HotkeyAction)>,
}

impl HotkeyBindings {
    /// Well-formed tables: each action bound at most once, each key id
    /// mapped at most once.
    pub open spec fn wf(self) -> bool {
        &&& actions_unique(self.string_map@)
        &&& ids_unique(self.key_map@)
    }

    pub fn new() -> (b: Self)
        ensures
            b.string_map@.len() == 0,
            b.key_map@.len() == 0,
            b.wf(),
    {
        HotkeyBindings { string_map: Vec::new(), key_map: Vec::new() }
    }

    /// Record a binding.  `parsed_id` is the platform hook's parse of
    /// `key_string`: an unparseable key string binds nothing and is the one
    /// failure reported to the caller.
    pub fn bind_key(&mut self, key_string: String, action: HotkeyAction, parsed_id: Option<u32>)
        -> (r: Result<(), ()>)
        requires
            old(self).wf(),
        ensures
            final(self).wf(),
            r is Ok <==> parsed_id is Some,
            parsed_id is None ==> *final(self) == *old(self),
            parsed_id matches Some(id) ==> {
                &&& final(self).string_map@ == upsert_binding(
                    old(self).string_map@,
                    action,
                    key_string,
                )
                &&& final(self).key_map@ == upsert_key(old(self).key_map@, id, action)
            },
    {
        match parsed_id {
            None => Err(()),
            Some(id) => {
                self.upsert_string(action, key_string);
                self.upsert_id(id, action);
                Ok(())
            },
        }
    }

    fn upsert_string(&mut self, action: HotkeyAction, key_string: String)
        requires
            actions_unique(old(self).string_map@),
        ensures
            final(self).string_map@ == upsert_binding(old(self).string_map@, action, key_string),
            final(self).key_map == old(self).key_map,
            actions_unique(final(self).string_map@),
    {
        let mut i: usize = 0;
        let n = self.string_map.len();
        while i < n
            invariant
                actions_unique(old(self).string_map@),
                n == self.string_map@.len(),
                i <= n,
                *self == *old(self),
                forall|j: int| 0 <= j < i ==> (#[trigger] self.string_map@[j]).0 != action,
            decreases n - i,
        {
            if self.string_map[i].0 == action {
                self.string_map.set(i, (action, key_string));
                proof {
                    lemma_upsert_binding_found(old(self).string_map@, action, key_string, i as int);
                    assert(forall|k: int|
                        0 <= k < self.string_map@.len() ==> (#[trigger] self.string_map@[k]).0
                            == old(self).string_map@[k].0);
                }
                return ;
            }
            i += 1;
        }
        self.string_map.push((action, key_string));
        proof {
            lemma_upsert_binding_absent(old(self).string_map@, action, key_string);
            assert(forall|k: int|
                0 <= k < old(self).string_map@.len() ==> self.string_map@[k] == (
                #[trigger] old(self).string_map@[k]));
        }
    }

    fn upsert_id(&mut self, id: u32, action: HotkeyAction)
        requires
            ids_unique(old(self).key_map@),
        ensures
            final(self).key_map@ == upsert_key(old(self).key_map@, id, action),
            final(self).string_map == old(self).string_map,
            ids_unique(final(self).key_map@),
    {
        let mut i: usize = 0;
        let n = self.key_map.len();
        while i < n
            invariant
                ids_unique(old(self).key_map@),
                n == self.key_map@.len(),
                i <= n,
                *self == *old(self),
                forall|j: int| 0 <= j < i ==> (#[trigger] self.key_map@[j]).0 != id,
            decreases n - i,
        {
            if self.key_map[i].0 == id {
                self.key_map.set(i, (id, action));
                proof {
                    lemma_upsert_key_found(old(self).key_map@, id, action, i as int);
                    assert(forall|k: int|
                        0 <= k < self.key_map@.len() ==> (#[trigger] self.key_map@[k]).0 == old(
                            self,
                        ).key_map@[k].0);
                }
                return ;
            }
            i += 1;
        }
        self.key_map.push((id, action));
        proof {
            lemma_upsert_key_absent(old(self).key_map@, id, action);
            assert(forall|k: int|
                0 <= k < old(self).key_map@.len() ==> self.key_map@[k] == (#[trigger] old(
                    self,
                ).key_map@[k]));
        }
    }

    /// Forget the binding of `action`.  The result reports failure on every
    /// path — even after a successful removal — and callers discard it; the
    /// binding is gone all the same.  A caller that must hand the key string
    /// to the platform hook for unregistration reads it with
    /// `get_hotkey_string` before removing.
    pub fn remove_key(&mut self, action: HotkeyAction) -> (r: Result<(), ()>)
        requires
            old(self).wf(),
        ensures
            final(self).wf(),
            final(self).string_map@ == remove_binding(old(self).string_map@, action),
            final(self).key_map == old(self).key_map,
            r is Err,
    {
        let mut i: usize = 0;
        let n = self.string_map.len();
        while i < n
            invariant
                old(self).wf(),
                n == self.string_map@.len(),
                i <= n,
                *self == *old(self),
                forall|j: int| 0 <= j < i ==> (#[trigger] self.string_map@[j]).0 != action,
            decreases n - i,
        {
            if self.string_map[i].0 == action {
                self.string_map.remove(i);
                proof {
                    lemma_remove_binding_found(old(self).string_map@, action, i as int);
                    lemma_remove_keeps_actions_unique(old(self).string_map@, i as int);
                }
                return Err(());
            }
            i += 1;
        }
        proof {
            lemma_remove_binding_absent(old(self).string_map@, action);
        }
        Err(())
    }

    /// The key string currently bound to `action`.
    pub fn get_hotkey_string(&self, action: HotkeyAction) -> (r: Option<String>)
        ensures
            r == spec_hotkey_string(self.string_map@, action),
    {
        let mut i: usize = 0;
        let n = self.string_map.len();
        while i < n
            invariant
                n == self.string_map@.len(),
                i <= n,
                forall|j: int| 0 <= j < i ==> (#[trigger] self.string_map@[j]).0 != action,
            decreases n - i,
        {
            if self.string_map[i].0 == action {
                proof {
                    lemma_hotkey_string_found(self.string_map@, action, i as int);
                }
                return Some(self.string_map[i].1.clone());
            }
            i += 1;
        }
        proof {
            lemma_hotkey_string_absent(self.string_map@, action);
        }
        None
    }

    /// The action a reported key id stands for; how a key press becomes an
    /// action.
    pub fn lookup_key(&self, id: u32) -> (r: Option<HotkeyAction>)
        ensures
            r == spec_key_action(self.key_map@, id),
    {
        let mut i: usize = 0;
        let n = self.key_map.len();
        while i < n
            invariant
                n == self.key_map@.len(),
                i <= n,
                forall|j: int| 0 <= j < i ==> (#[trigger] self.key_map@[j]).0 != id,
            decreases n - i,
        {
            if self.key_map[i].0 == id {
                proof {
                    lemma_key_action_found(self.key_map@, id, i as int);
                }
                return Some(self.key_map[i].1);
            }
            i += 1;
        }
        proof {
            lemma_key_action_absent(self.key_map@, id);
        }
        None
    }
}

proof fn lemma_upsert_binding_found(
    m: Seq<(HotkeyAction, String)>,
    a: HotkeyAction,
    s: String,
    i: int,
)
    requires
        0 <= i < m.len(),
        m[i].0 == a,
        forall|j: int| 0 <= j < i ==> (#[trigger] m[j]).0 != a,
    ensures
        upsert_binding(m, a, s) =~= m.update(i, (a, s)),
    decreases i,
{
    if i > 0 {
        lemma_upsert_binding_found(m.subrange(1, m.len() as int), a, s, i - 1);
    }
}

proof fn lemma_upsert_binding_absent(m: Seq<(HotkeyAction, String)>, a: HotkeyAction, s: String)
    requires
        forall|j: int| 0 <= j < m.len() ==> (#[trigger] m[j]).0 != a,
    ensures
        upsert_binding(m, a, s) =~= m.push((a, s)),
    decreases m.len(),
{
    if m.len() > 0 {
        lemma_upsert_binding_absent(m.subrange(1, m.len() as int), a, s);
    }
}

proof fn lemma_upsert_key_found(m: Seq<(u32, HotkeyAction)>, id: u32, a: HotkeyAction, i: int)
    requires
        0 <= i < m.len(),
        m[i].0 == id,
        forall|j: int| 0 <= j < i ==> (#[trigger] m[j]).0 != id,
    ensures
        upsert_key(m, id, a) =~= m.update(i, (id, a)),
    decreases i,
{
    if i > 0 {
        lemma_upsert_key_found(m.subrange(1, m.len() as int), id, a, i - 1);
    }
}

proof fn lemma_upsert_key_absent(m: Seq<(u32, HotkeyAction)>, id: u32, a: HotkeyAction)
    requires
        forall|j: int| 0 <= j < m.len() ==> (#[trigger] m[j]).0 != id,
    ensures
        upsert_key(m, id, a) =~= m.push((id, a)),
    decreases m.len(),
{
    if m.len() > 0 {
        lemma_upsert_key_absent(m.subrange(1, m.len() as int), id, a);
    }
}

proof fn lemma_remove_binding_found(m: Seq<(HotkeyAction, String)>, a: HotkeyAction, i: int)
    requires
        0 <= i < m.len(),
        m[i].0 == a,
        forall|j: int| 0 <= j < i ==> (#[trigger] m[j]).0 != a,
    ensures
        remove_binding(m, a) =~= m.remove(i),
    decreases i,
{
    if i > 0 {
        lemma_remove_binding_found(m.subrange(1, m.len() as int), a, i - 1);
    }
}

proof fn lemma_remove_binding_absent(m: Seq<(HotkeyAction, String)>, a: HotkeyAction)
    requires
        forall|j: int| 0 <= j < m.len() ==> (#[trigger] m[j]).0 != a,
    ensures
        remove_binding(m, a) =~= m,
    decreases m.len(),
{
    if m.len() > 0 {
        lemma_remove_binding_absent(m.subrange(1, m.len() as int), a);
    }
}

proof fn lemma_hotkey_string_found(m: Seq<(HotkeyAction, String)>, a: HotkeyAction, i: int)
    requires
        0 <= i < m.len(),
        m[i].0 == a,
        forall|j: int| 0 <= j < i ==> (#[trigger] m[j]).0 != a,
    ensures
        spec_hotkey_string(m, a) == Some(m[i].1),
    decreases i,
{
    if i > 0 {
        lemma_hotkey_string_found(m.subrange(1, m.len() as int), a, i - 1);
    }
}

proof fn lemma_hotkey_string_absent(m: Seq<(HotkeyAction, String)>, a: HotkeyAction)
    requires
        forall|j: int| 0 <= j < m.len() ==> (#[trigger] m[j]).0 != a,
    ensures
        spec_hotkey_string(m, a) is None,
    decreases m.len(),
{
    if m.len() > 0 {
        lemma_hotkey_string_absent(m.subrange(1, m.len() as int), a);
    }
}

proof fn lemma_key_action_found(m: Seq<(u32, HotkeyAction)>, id: u32, i: int)
    requires
        0 <= i < m.len(),
        m[i].0 == id,
        forall|j: int| 0 <= j < i ==> (#[trigger] m[j]).0 != id,
    ensures
        spec_key_action(m, id) == Some(m[i].1),
    decreases i,
{
    if i > 0 {
        lemma_key_action_found(m.subrange(1, m.len() as int), id, i - 1);
    }
}

/// The one-press slot a backend's callback fills between frames.  The host
/// keeps it behind a lock; the frame polls it, and a recorded press is
/// delivered at most once.
pub struct PressSlot {
    pub last_pressed: Option<HotkeyAction>,
}

impl PressSlot {
    pub fn new() -> (s: Self)
        ensures
            s.last_pressed is None,
    {
        PressSlot { last_pressed: None }
    }

    /// The hook's callback: record a press, replacing any undelivered one.
    pub fn record(&mut self, action: HotkeyAction)
        ensures
            final(self).last_pressed == Some(action),
    {
        self.last_pressed = Some(action);
    }

    /// The frame's poll: deliver the pending press, if any, and clear the
    /// slot, so no press is ever delivered twice.
    pub fn take_press(&mut self) -> (r: Option<HotkeyAction>)
        ensures
            r == old(self).last_pressed,
            final(self).last_pressed is None,
    {
        let r = self.last_pressed;
        self.last_pressed = None;
        r
    }
}

/// Dropping one row keeps the remaining actions unique.
proof fn lemma_remove_keeps_actions_unique(m: Seq<(HotkeyAction, String)>, i: int)
    requires
        actions_unique(m),
        0 <= i < m.len(),
    ensures
        actions_unique(m.remove(i)),
{
    let r = m.remove(i);
    assert forall|p: int, q: int|
        0 <= p < q < r.len() implies (#[trigger] r[p]).0 != (#[trigger] r[q]).0 by {
        let p0 = if p < i {
            p
        } else {
            p + 1
        };
        let q0 = if q < i {
            q
        } else {
            q + 1
        };
        assert(r[p] == m[p0]);
        assert(r[q] == m[q0]);
    }
}

proof fn lemma_key_action_absent(m: Seq<(u32, HotkeyAction)>, id: u32)
    requires
        forall|j: int| 0 <= j < m.len() ==> (#[trigger] m[j]).0 != id,
    ensures
        spec_key_action(m, id) is None,
    decreases m.len(),
{
    if m.len() > 0 {
        lemma_key_action_absent(m.subrange(1, m.len() as int), id);
    }
}

} // verus!
