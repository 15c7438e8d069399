//! The panel that hosts conversations in panes.
//!
//! Panes can be split off, zoomed and closed. What an event of a pane asks for is
//! decided here; the panes themselves belong to the window.

use vstd::prelude::*;

verus! {

pub const VIBEDEV_AGENT_PANEL_KEY: &'static str = "VibedevAgentPanel";

pub const PERSISTENT_NAME: &'static str = "Vibedev Agent Panel";

pub const ICON_TOOLTIP: &'static str = "VibeDev Agent";

pub const ACTIVATION_PRIORITY: u32 = 10;

/// Where a panel can be docked.
#[derive(Clone, Copy, Debug, PartialEq, Eq, Structural)]
pub enum DockPosition {
    Left,
    Bottom,
    Right,
}

/// Where the panel is docked.
pub fn position() -> (r: DockPosition)
    ensures
        r == DockPosition::Right,
{
    DockPosition::Right
}

/// Whether the panel can be docked there: at a side.
pub fn position_is_valid(p: DockPosition) -> (r: bool)
    ensures
        r == (p == DockPosition::Left || p == DockPosition::Right),
{
    match p {
        DockPosition::Left => true,
        DockPosition::Right => true,
        DockPosition::Bottom => false,
    }
}

/// On which side of a pane another is put.
#[derive(Clone, Copy, Debug, PartialEq, Eq, Structural)]
pub enum SplitDirection {
    Up,
    Down,
    Left,
    Right,
}

/// What the new pane of a split holds.
#[derive(Clone, Copy, Debug, PartialEq, Eq, Structural)]
pub enum SplitMode {
    /// A copy of the item.
    ClonePane,
    /// Nothing.
    EmptyPane,
    /// The item itself.
    MovePane,
}

/// An event of a pane.
#[derive(Clone, Copy, Debug, PartialEq, Eq, Structural)]
pub enum PaneEvent {
    /// It is to go; another may be named that is to be focused.
    Remove { focus_on_pane: Option<u64> },
    ZoomIn,
    ZoomOut,
    Split { direction: SplitDirection, mode: SplitMode },
    Focus,
    /// Anything else.
    Other,
}

/// What the window is to do.
#[derive(Clone, Copy, Debug, PartialEq, Eq, Structural)]
pub enum PaneReaction {
    Nothing,
    /// Unzoom the one pane, and close the panel.
    Close,
    /// Focus a pane.
    FocusPane { pane: u64 },
    /// Zoom all panes in or out, and say so.
    ZoomAll { zoomed: bool },
    /// Take the item that is shown out of the pane.
    TakeItem { direction: SplitDirection },
    /// Put it into a new pane on this side, and focus that.
    SplitOff { direction: SplitDirection },
}

/// The panel.
#[derive(Debug)]
pub struct VibedevAgentPanel {
    /// The pane that was focused last.
    pub active_pane: u64,
    /// The panel is shown.
    pub active: bool,
}

/// What an event asks for. `panes_before` is how many panes there were, `panes_left`
/// are those after a removal.
pub open spec fn reaction(
    event: PaneEvent,
    panes_before: nat,
    panes_left: Seq<u64>,
) -> PaneReaction {
    match event {
        PaneEvent::Remove { focus_on_pane } => if panes_before == 1 {
            PaneReaction::Close
        } else {
            match focus_on_pane {
                Some(pane) => PaneReaction::FocusPane { pane },
                None => if panes_left.len() > 0 {
                    PaneReaction::FocusPane { pane: panes_left.last() }
                } else {
                    PaneReaction::Nothing
                },
            }
        },
        PaneEvent::ZoomIn => PaneReaction::ZoomAll { zoomed: true },
        PaneEvent::ZoomOut => PaneReaction::ZoomAll { zoomed: false },
        PaneEvent::Split { direction, mode } => if mode == SplitMode::MovePane {
            PaneReaction::TakeItem { direction }
        } else {
            PaneReaction::Nothing
        },
        PaneEvent::Focus => PaneReaction::Nothing,
        PaneEvent::Other => PaneReaction::Nothing,
    }
}

impl VibedevAgentPanel {
    /// A panel with one pane.
    pub fn new(pane: u64) -> (r: Self)
        ensures
            r.active_pane == pane,
            !r.active,
    {
        VibedevAgentPanel { active_pane: pane, active: false }
    }

    /// What an event of a pane asks for; a focused pane becomes the active one.
    pub fn handle_pane_event(
        &mut self,
        pane: u64,
        event: PaneEvent,
        panes_before: usize,
        panes_left: &Vec<u64>,
    ) -> (r: PaneReaction)
        ensures
            r == reaction(event, panes_before as nat, panes_left@),
            final(self).active == old(self).active,
            final(self).active_pane == (if event == PaneEvent::Focus {
                pane
            } else {
                old(self).active_pane
            }),
    {
        match event {
            PaneEvent::Remove { focus_on_pane } => if panes_before == 1 {
                PaneReaction::Close
            } else {
                match focus_on_pane {
                    Some(pane) => PaneReaction::FocusPane { pane },
                    None => if panes_left.len() > 0 {
                        PaneReaction::FocusPane { pane: panes_left[panes_left.len() - 1] }
                    } else {
                        PaneReaction::Nothing
                    },
                }
            },
            PaneEvent::ZoomIn => PaneReaction::ZoomAll { zoomed: true },
            PaneEvent::ZoomOut => PaneReaction::ZoomAll { zoomed: false },
            PaneEvent::Split { direction, mode } => match mode {
                SplitMode::MovePane => PaneReaction::TakeItem { direction },
                _ => PaneReaction::Nothing,
            },
            PaneEvent::Focus => {
                self.active_pane = pane;
                PaneReaction::Nothing
            },
            PaneEvent::Other => PaneReaction::Nothing,
        }
    }

    /// The panel is shown or hidden.
    pub fn set_active(&mut self, active: bool)
        ensures
            final(self).active == active,
            final(self).active_pane == old(self).active_pane,
    {
        self.active = active;
    }
}

/// How a split goes on once the item was taken: only with an item, in a window that
/// is still there.
pub fn split_taken_item(direction: SplitDirection, has_item: bool, has_workspace: bool) -> (r:
    PaneReaction)
    ensures
        r == (if has_item && has_workspace {
            PaneReaction::SplitOff { direction }
        } else {
            PaneReaction::Nothing
        }),
{
    if has_item && has_workspace {
        PaneReaction::SplitOff { direction }
    } else {
        PaneReaction::Nothing
    }
}

/// The panel closes with its last pane, and with no other.
pub proof fn law_panel_closes_with_its_last_pane(
    event: PaneEvent,
    panes_before: nat,
    panes_left: Seq<u64>,
)
    ensures
        reaction(event, panes_before, panes_left) == PaneReaction::Close <==> event is Remove
            && panes_before == 1,
{
}

/// Where a pane of several goes, the one that it names is focused, else the last that is
/// left. Zooming concerns all panes, and a split moves an item or does nothing.
pub proof fn law_panes_react(
    panes_before: nat,
    panes_left: Seq<u64>,
    pane: u64,
    direction: SplitDirection,
    mode: SplitMode,
)
    ensures
        panes_before != 1 ==> reaction(
            PaneEvent::Remove { focus_on_pane: Some(pane) },
            panes_before,
            panes_left,
        ) == (PaneReaction::FocusPane { pane }),
        panes_before != 1 && panes_left.len() > 0 ==> reaction(
            PaneEvent::Remove { focus_on_pane: None },
            panes_before,
            panes_left,
        ) == (PaneReaction::FocusPane { pane: panes_left[panes_left.len() - 1] }),
        reaction(PaneEvent::ZoomIn, panes_before, panes_left) == (PaneReaction::ZoomAll {
            zoomed: true,
        }),
        reaction(PaneEvent::ZoomOut, panes_before, panes_left) == (PaneReaction::ZoomAll {
            zoomed: false,
        }),
        reaction(
            PaneEvent::Split { direction, mode: SplitMode::MovePane },
            panes_before,
            panes_left,
        ) == (PaneReaction::TakeItem { direction }),
        mode != SplitMode::MovePane ==> reaction(
            PaneEvent::Split { direction, mode },
            panes_before,
            panes_left,
        ) == PaneReaction::Nothing,
        reaction(PaneEvent::Focus, panes_before, panes_left) == PaneReaction::Nothing,
        reaction(PaneEvent::Other, panes_before, panes_left) == PaneReaction::Nothing,
{
}

} // verus!
