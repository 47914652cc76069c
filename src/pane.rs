use vstd::prelude::*;

verus! {

/// Identity of a surface managed by the host: a terminal or a plugin,
/// each numbered by the host.
#[derive(Debug, Clone, Copy, PartialEq, Eq, Hash, Structural)]
pub enum PaneId {
    Terminal(u32),
    Plugin(u32),
}

/// A pane identity together with the layer (tiled or floating) it is focused in.
#[derive(Debug, Clone, Copy, PartialEq, Eq, Hash, Structural)]
pub enum PaneFocus {
    Tiled(PaneId),
    Floating(PaneId),
}

/// Offset that separates plugin keys from terminal keys in `PaneId::key`.
pub const PLUGIN_KEY_BASE: u64 = 0x1_0000_0000;

/// The integer key of a pane identity: terminals below `PLUGIN_KEY_BASE`,
/// plugins at or above it.
pub open spec fn pane_key(p: PaneId) -> u64 {
    match p {
        PaneId::Terminal(n) => n as u64,
        PaneId::Plugin(n) => (PLUGIN_KEY_BASE + n as u64) as u64,
    }
}

/// The identity that a key stands for.
pub open spec fn pane_of_key(k: u64) -> PaneId {
    if k < PLUGIN_KEY_BASE {
        PaneId::Terminal(k as u32)
    } else {
        PaneId::Plugin((k - PLUGIN_KEY_BASE) as u32)
    }
}

pub open spec fn is_pane_key(k: u64) -> bool {
    k < 2 * PLUGIN_KEY_BASE
}

/// Keys identify panes one to one.
pub proof fn lemma_pane_key_injective(a: PaneId, b: PaneId)
    ensures
        pane_key(a) == pane_key(b) <==> a == b,
        is_pane_key(pane_key(a)),
        pane_of_key(pane_key(a)) == a,
{
}

impl PaneId {
    /// A plugin identity when `plugin` holds, else a terminal identity.
    pub fn new(id: u32, plugin: bool) -> (r: PaneId)
        ensures
            r == (if plugin { PaneId::Plugin(id) } else { PaneId::Terminal(id) }),
    {
        if plugin {
            PaneId::Plugin(id)
        } else {
            PaneId::Terminal(id)
        }
    }

    pub fn key(&self) -> (r: u64)
        ensures
            r == pane_key(*self),
    {
        match self {
            PaneId::Terminal(n) => *n as u64,
            PaneId::Plugin(n) => PLUGIN_KEY_BASE + *n as u64,
        }
    }

    pub fn from_key(k: u64) -> (r: PaneId)
        requires
            is_pane_key(k),
        ensures
            r == pane_of_key(k),
            pane_key(r) == k,
    {
        if k < PLUGIN_KEY_BASE {
            PaneId::Terminal(k as u32)
        } else {
            PaneId::Plugin((k - PLUGIN_KEY_BASE) as u32)
        }
    }
}

pub open spec fn focus_id(f: PaneFocus) -> PaneId {
    match f {
        PaneFocus::Tiled(id) => id,
        PaneFocus::Floating(id) => id,
    }
}

pub open spec fn focus_floating(f: PaneFocus) -> bool {
    f is Floating
}

impl PaneFocus {
    /// The identity `id` focused in the floating layer when `floating` holds,
    /// else in the tiled layer.
    pub fn new(id: PaneId, floating: bool) -> (r: PaneFocus)
        ensures
            r == (if floating { PaneFocus::Floating(id) } else { PaneFocus::Tiled(id) }),
            focus_id(r) == id,
            focus_floating(r) == floating,
    {
        if floating {
            PaneFocus::Floating(id)
        } else {
            PaneFocus::Tiled(id)
        }
    }

    pub fn id(&self) -> (r: PaneId)
        ensures
            r == focus_id(*self),
    {
        match self {
            PaneFocus::Tiled(id) => *id,
            PaneFocus::Floating(id) => *id,
        }
    }

    pub fn floating(&self) -> (r: bool)
        ensures
            r == focus_floating(*self),
    {
        matches!(self, PaneFocus::Floating(_))
    }
}

} // verus!
