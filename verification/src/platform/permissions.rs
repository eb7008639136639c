//! Waiting for the permissions that macOS asks its user for.
use vstd::prelude::*;

verus! {

/// How long the user may take, in milliseconds: granting the permissions takes a trip
/// through the system's settings, and there is no reason to rush.
pub const PATIENCE_MS: u64 = 900_000;

/// After so long the dialogs were probably dismissed, and the settings are opened.
pub const SETTINGS_MS: u64 = 6_000;

/// The user is reminded so often.
pub const REMIND_MS: u64 = 30_000;

/// A wait for permissions. Times are milliseconds since it began.
#[derive(Clone, Copy, Debug, PartialEq, Eq, Structural)]
pub struct PermissionWait {
    /// The settings were opened.
    pub opened: bool,
    /// When the user was last reminded.
    pub reminded: u64,
}

/// What a look at the permissions leads to.
#[derive(Clone, Copy, Debug, PartialEq, Eq, Structural)]
pub enum Verdict {
    /// They are granted: go on.
    Granted,
    /// Wait; before that, perhaps open the settings, perhaps remind the user.
    Wait { open_settings: bool, remind: bool },
    /// The time is up.
    GiveUp,
}

impl PermissionWait {
    /// A wait that begins.
    pub fn new() -> (r: PermissionWait)
        ensures
            r == (PermissionWait { opened: false, reminded: 0 }),
    {
        PermissionWait { opened: false, reminded: 0 }
    }

    /// The wait after a look at the permissions at `now`, and what it leads to.
    pub open spec fn looked(self, granted: bool, now: u64) -> (PermissionWait, Verdict) {
        if now >= PATIENCE_MS {
            (self, Verdict::GiveUp)
        } else if granted {
            (self, Verdict::Granted)
        } else {
            let open_settings = !self.opened && now > SETTINGS_MS;
            let remind = now - self.reminded > REMIND_MS;
            (
                PermissionWait {
                    opened: self.opened || open_settings,
                    reminded: if remind {
                        now
                    } else {
                        self.reminded
                    },
                },
                Verdict::Wait { open_settings, remind },
            )
        }
    }

    /// Looks at the permissions.
    pub fn ensure_permissions(&mut self, granted: bool, now: u64) -> (r: Verdict)
        ensures
            (*final(self), r) == old(self).looked(granted, now),
    {
        if now >= PATIENCE_MS {
            return Verdict::GiveUp;
        }
        if granted {
            return Verdict::Granted;
        }
        let open_settings: bool = !self.opened && now > SETTINGS_MS;
        let remind: bool = now > self.reminded && now - self.reminded > REMIND_MS;
        if open_settings {
            self.opened = true;
        }
        if remind {
            self.reminded = now;
        }
        Verdict::Wait { open_settings, remind }
    }
}

/// The settings are opened once: after they were, no look opens them again.
pub proof fn law_settings_open_once(
    w: PermissionWait,
    granted: bool,
    now: u64,
    later_granted: bool,
    later: u64,
)
    requires
        w.looked(granted, now).1 matches Verdict::Wait { open_settings: true, .. },
    ensures
        !(w.looked(granted, now).0.looked(later_granted, later).1 matches Verdict::Wait {
            open_settings: true,
            ..
        }),
{
}

} // verus!
