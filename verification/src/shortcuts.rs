use vstd::prelude::*;

verus! {

/// One action a keyboard shortcut asks of the shell.
#[derive(Debug, PartialEq, Eq, Structural)]
pub enum ShortcutAction {
    ToggleSidebar,
    CloseActiveWidget,
    IncreaseScale,
    DecreaseScale,
}

/// One snapshot of the shortcut keys: whether the command modifier is
/// held alone, and which of the bound keys were pressed.
#[derive(Clone, Copy, Debug, PartialEq, Eq, Structural)]
pub struct KeySnapshot {
    pub command_only: bool,
    pub s: bool,
    pub w: bool,
    pub equals: bool,
    pub minus: bool,
}

/// The actions a key snapshot triggers, in the fixed order: sidebar,
/// close, scale up, scale down. Each needs the command modifier alone.
pub open spec fn spec_shortcut_actions(keys: KeySnapshot) -> Seq<ShortcutAction> {
    (if keys.command_only && keys.s {
        seq![ShortcutAction::ToggleSidebar]
    } else {
        Seq::empty()
    }) + (if keys.command_only && keys.w {
        seq![ShortcutAction::CloseActiveWidget]
    } else {
        Seq::empty()
    }) + (if keys.command_only && keys.equals {
        seq![ShortcutAction::IncreaseScale]
    } else {
        Seq::empty()
    }) + (if keys.command_only && keys.minus {
        seq![ShortcutAction::DecreaseScale]
    } else {
        Seq::empty()
    })
}

/// Turns key snapshots into shell actions.
pub struct ShortcutHandler;

impl ShortcutHandler {
    /// Collects the actions a key snapshot triggers.
    pub fn check_shortcuts(keys: KeySnapshot) -> (r: Vec<ShortcutAction>)
        ensures
            r@ == spec_shortcut_actions(keys),
    {
        let mut actions: Vec<ShortcutAction> = Vec::new();
        if keys.command_only && keys.s {
            actions.push(ShortcutAction::ToggleSidebar);
        }
        if keys.command_only && keys.w {
            actions.push(ShortcutAction::CloseActiveWidget);
        }
        if keys.command_only && keys.equals {
            actions.push(ShortcutAction::IncreaseScale);
        }
        if keys.command_only && keys.minus {
            actions.push(ShortcutAction::DecreaseScale);
        }
        proof {
            assert(actions@ =~= spec_shortcut_actions(keys));
        }
        actions
    }
}

} // verus!
