//! Restoring the host terminal's default colors after a job changed them.
use crate::osc::scrollback::{self, foreground_job_is_shell, ForegroundJob};
use vstd::prelude::*;

verus! {

#[derive(Debug, Clone, Copy, PartialEq, Eq, Structural)]
pub struct RgbColor {
    pub r: u8,
    pub g: u8,
    pub b: u8,
}

#[derive(Debug, Clone, Copy, PartialEq, Eq, Structural)]
pub enum DefaultColorKind {
    Foreground,
    Background,
}

/// The host terminal's default colors, where they are known.
#[derive(Debug, Clone, Copy, PartialEq, Eq, Structural)]
pub struct HostTheme {
    pub foreground: Option<RgbColor>,
    pub background: Option<RgbColor>,
}

/// A color to write into the pane's terminal: `None` resets it.
#[derive(Debug, Clone, Copy, PartialEq, Eq, Structural)]
pub struct HostColorWrite {
    pub kind: DefaultColorKind,
    pub color: Option<RgbColor>,
}

/// What a pane knows of who changed its default colors.
#[derive(Debug, Clone, Copy, PartialEq, Eq, Structural)]
pub struct DefaultColorOwnership {
    pub transient_default_color_owner_pgid: Option<u32>,
    pub child_default_foreground_changed: bool,
    pub child_default_background_changed: bool,
}

/// Whether the colors are due back: on the primary screen, with the shell in
/// the foreground, and not while the group that changed them still is.
pub open spec fn restore_due(
    owner_pgid: u32,
    shell_pid: u32,
    alternate_screen: bool,
    foreground_job: Option<ForegroundJob>,
) -> bool {
    &&& !alternate_screen
    &&& foreground_job matches Some(job)
    &&& job.process_group_id != owner_pgid
    &&& scrollback::job_has_shell(job, shell_pid)
}

/// The same where process groups do not tell a job from its shell.
pub open spec fn restore_due_ignoring_groups(
    shell_pid: u32,
    alternate_screen: bool,
    foreground_job: Option<ForegroundJob>,
) -> bool {
    &&& !alternate_screen
    &&& foreground_job matches Some(job)
    &&& scrollback::job_has_shell(job, shell_pid)
}

pub open spec fn referent(job: Option<&ForegroundJob>) -> Option<ForegroundJob> {
    match job {
        Some(job) => Some(*job),
        None => None,
    }
}

pub fn should_restore_host_terminal_theme(
    owner_pgid: u32,
    shell_pid: u32,
    alternate_screen: bool,
    foreground_job: Option<&ForegroundJob>,
) -> (due: bool)
    ensures
        due == restore_due(owner_pgid, shell_pid, alternate_screen, referent(foreground_job)),
{
    if alternate_screen {
        return false;
    }
    match foreground_job {
        Some(job) => job.process_group_id != owner_pgid && foreground_job_is_shell(job, shell_pid),
        None => false,
    }
}

/// As `should_restore_host_terminal_theme`, on macOS.
pub fn should_restore_host_terminal_theme_on_macos(
    shell_pid: u32,
    alternate_screen: bool,
    foreground_job: Option<&ForegroundJob>,
) -> (due: bool)
    ensures
        due == restore_due_ignoring_groups(shell_pid, alternate_screen, referent(foreground_job)),
{
    if alternate_screen {
        return false;
    }
    match foreground_job {
        Some(job) => foreground_job_is_shell(job, shell_pid),
        None => false,
    }
}

/// The writes that put the theme's colors into the terminal.
pub open spec fn theme_writes(theme: HostTheme, foreground: bool, background: bool) -> Seq<
    HostColorWrite,
> {
    let first = if foreground {
        seq![HostColorWrite { kind: DefaultColorKind::Foreground, color: theme.foreground }]
    } else {
        Seq::empty()
    };
    if background {
        first.push(HostColorWrite { kind: DefaultColorKind::Background, color: theme.background })
    } else {
        first
    }
}

pub fn write_host_terminal_theme_selective(
    theme: HostTheme,
    foreground: bool,
    background: bool,
) -> (writes: Vec<HostColorWrite>)
    ensures
        writes@ == theme_writes(theme, foreground, background),
{
    let mut writes: Vec<HostColorWrite> = Vec::new();
    if foreground {
        writes.push(
            HostColorWrite { kind: DefaultColorKind::Foreground, color: theme.foreground },
        );
    }
    if background {
        writes.push(
            HostColorWrite { kind: DefaultColorKind::Background, color: theme.background },
        );
    }
    assert(writes@ =~= theme_writes(theme, foreground, background));
    writes
}

pub fn write_host_terminal_theme(theme: HostTheme) -> (writes: Vec<HostColorWrite>)
    ensures
        writes@ == theme_writes(theme, true, true),
{
    write_host_terminal_theme_selective(theme, true, true)
}

impl DefaultColorOwnership {
    /// The ownership of a pane whose colors are the host's.
    pub open spec fn unowned() -> DefaultColorOwnership {
        DefaultColorOwnership {
            transient_default_color_owner_pgid: None,
            child_default_foreground_changed: false,
            child_default_background_changed: false,
        }
    }

    /// Clears the ownership; the writes restore both colors.
    fn restore_host_terminal_theme(&mut self, theme: HostTheme) -> (writes: Vec<HostColorWrite>)
        ensures
            writes@ == theme_writes(theme, true, true),
            *final(self) == DefaultColorOwnership::unowned(),
    {
        self.transient_default_color_owner_pgid = None;
        self.child_default_foreground_changed = false;
        self.child_default_background_changed = false;
        write_host_terminal_theme(theme)
    }

    /// Takes the colors back where they are due: the ownership is cleared and
    /// the writes that restore both colors are returned. `theme_is_empty` says
    /// that nothing at all is known of the host's colors.
    pub fn restore_host_terminal_theme_if_needed(
        &mut self,
        theme: HostTheme,
        theme_is_empty: bool,
        shell_pid: u32,
        alternate_screen: bool,
        foreground_job: Option<&ForegroundJob>,
    ) -> (writes: Option<Vec<HostColorWrite>>)
        ensures
            ({
                let due = !theme_is_empty && (old(self).transient_default_color_owner_pgid matches
                    Some(owner) && restore_due(
                    owner,
                    shell_pid,
                    alternate_screen,
                    referent(foreground_job),
                ));
                &&& writes is Some == due
                &&& due ==> writes->0@ == theme_writes(theme, true, true) && *final(self)
                    == DefaultColorOwnership::unowned()
                &&& !due ==> *final(self) == *old(self)
            }),
    {
        let owner_pgid: u32 = match self.transient_default_color_owner_pgid {
            Some(owner_pgid) => owner_pgid,
            None => return None,
        };
        if !theme_is_empty && should_restore_host_terminal_theme(
            owner_pgid,
            shell_pid,
            alternate_screen,
            foreground_job,
        ) {
            Some(self.restore_host_terminal_theme(theme))
        } else {
            None
        }
    }

    /// As `restore_host_terminal_theme_if_needed`, on macOS: the colors are due back
    /// also while the group that changed them is in the foreground.
    pub fn restore_host_terminal_theme_if_needed_on_macos(
        &mut self,
        theme: HostTheme,
        theme_is_empty: bool,
        shell_pid: u32,
        alternate_screen: bool,
        foreground_job: Option<&ForegroundJob>,
    ) -> (writes: Option<Vec<HostColorWrite>>)
        ensures
            ({
                let due = !theme_is_empty && old(self).transient_default_color_owner_pgid is Some
                    && restore_due_ignoring_groups(
                    shell_pid,
                    alternate_screen,
                    referent(foreground_job),
                );
                &&& writes is Some == due
                &&& due ==> writes->0@ == theme_writes(theme, true, true) && *final(self)
                    == DefaultColorOwnership::unowned()
                &&& !due ==> *final(self) == *old(self)
            }),
    {
        if self.transient_default_color_owner_pgid.is_some() && !theme_is_empty
            && should_restore_host_terminal_theme_on_macos(
            shell_pid,
            alternate_screen,
            foreground_job,
        ) {
            Some(self.restore_host_terminal_theme(theme))
        } else {
            None
        }
    }
}

/// Colors are due back exactly on the primary screen, with the shell in the foreground, and
/// never while the group that set them still is there.
pub proof fn law_colors_come_back_with_the_shell(
    owner_pgid: u32,
    shell_pid: u32,
    alternate_screen: bool,
    job: ForegroundJob,
)
    ensures
        restore_due(owner_pgid, shell_pid, alternate_screen, Some(job)) <==> !alternate_screen
            && job.process_group_id != owner_pgid && scrollback::job_has_shell(job, shell_pid),
        !restore_due(owner_pgid, shell_pid, alternate_screen, None),
        restore_due_ignoring_groups(shell_pid, alternate_screen, Some(job)) <==> !alternate_screen
            && scrollback::job_has_shell(job, shell_pid),
        !restore_due_ignoring_groups(shell_pid, alternate_screen, None),
{
}

/// A restored color is the host's own color of its kind, or a reset where that is unknown;
/// a color that is not asked for is not written.
pub proof fn law_writes_are_the_hosts_colors(theme: HostTheme)
    ensures
        theme_writes(theme, true, true) == seq![
            HostColorWrite { kind: DefaultColorKind::Foreground, color: theme.foreground },
            HostColorWrite { kind: DefaultColorKind::Background, color: theme.background },
        ],
        theme_writes(theme, true, false) == seq![
            HostColorWrite { kind: DefaultColorKind::Foreground, color: theme.foreground },
        ],
        theme_writes(theme, false, true) == seq![
            HostColorWrite { kind: DefaultColorKind::Background, color: theme.background },
        ],
        theme_writes(theme, false, false) == Seq::<HostColorWrite>::empty(),
        DefaultColorOwnership::unowned().transient_default_color_owner_pgid is None,
        !DefaultColorOwnership::unowned().child_default_foreground_changed,
        !DefaultColorOwnership::unowned().child_default_background_changed,
{
    assert(theme_writes(theme, true, true) =~= seq![
        HostColorWrite { kind: DefaultColorKind::Foreground, color: theme.foreground },
        HostColorWrite { kind: DefaultColorKind::Background, color: theme.background },
    ]);
    assert(theme_writes(theme, false, true) =~= seq![
        HostColorWrite { kind: DefaultColorKind::Background, color: theme.background },
    ]);
}

} // verus!
