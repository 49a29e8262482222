//! One file-copy operation and the rules for executing it.
//!
//! The installer itself never touches the filesystem: the caller reports
//! whether the destination exists and, when a copy was called for, how the
//! copy went, and `try_install` decides the outcome, the error priority
//! and the accumulated comment.

use vstd::prelude::*;
use crate::errors::CharonInstallError;

verus! {

/// A single item to be installed: one source path, one destination path,
/// and the policy flags the manifest declared for it.
#[derive(Debug, Clone, PartialEq, Eq)]
pub struct InstallItem {
    /// Path of the file to be installed.
    pub target: String,
    /// Path the file is to be copied to.
    pub dest: String,
    /// Permission bits to apply after the copy; 0 leaves the default.
    pub perms: u32,
    /// Drop the extension from the destination file name.
    pub strip_ext: bool,
    /// Overwrite the destination if it already exists.
    pub overwrite: bool,
    /// Comments accumulated during installation, used for logging.
    pub comment: String,
}

/// What happened when the caller attempted the copy for an item.
#[derive(Debug, Clone, PartialEq, Eq)]
pub enum CopyOutcome {
    /// No copy was attempted (dry run, or the destination was kept).
    NotAttempted,
    /// The bytes were copied; applying permission bits failed with the
    /// given message, when one is present.
    Copied { perms_err: Option<String> },
    /// The copy itself failed with the given message.
    CopyFailed { err: String },
}

/// A copy is performed exactly when this holds: never in a dry run, and
/// not when the destination exists and may not be overwritten.
pub open spec fn needs_copy_spec(item: InstallItem, dest_exists: bool, do_dry_run: bool) -> bool {
    !do_dry_run && !(dest_exists && !item.overwrite)
}

/// The single error reported for an item, by severity: a failed copy
/// outranks a permission failure, which outranks a kept destination,
/// which outranks the dry-run notice.
pub open spec fn install_result_spec(
    item: InstallItem,
    dest_exists: bool,
    do_dry_run: bool,
    outcome: CopyOutcome,
) -> Result<(), CharonInstallError> {
    if dest_exists && !item.overwrite {
        Err(CharonInstallError::FileExistsNoOverwrite)
    } else if do_dry_run {
        Err(CharonInstallError::DryRun)
    } else {
        match outcome {
            CopyOutcome::NotAttempted => Err(CharonInstallError::DryRun),
            CopyOutcome::Copied { perms_err: None } => Ok(()),
            CopyOutcome::Copied { perms_err: Some(e) } => Err(
                CharonInstallError::BadPermissions(e),
            ),
            CopyOutcome::CopyFailed { err } => Err(CharonInstallError::GenericIoError(err)),
        }
    }
}

/// The leading comment parts: the `#` marker, then any annotation the
/// manifest supplied for the item.
pub open spec fn comment_prefix_spec(user_comment: Seq<char>) -> Seq<char> {
    if user_comment.len() > 0 {
        "#; "@ + user_comment
    } else {
        "#"@
    }
}

/// The semicolon-joined trace of the branches taken for an item.
pub open spec fn install_comment_spec(
    item: InstallItem,
    dest_exists: bool,
    do_dry_run: bool,
    outcome: CopyOutcome,
) -> Seq<char> {
    let prefix = comment_prefix_spec(item.comment@);
    if dest_exists && !item.overwrite {
        prefix + "; File exists && !overwrite"@
    } else if do_dry_run {
        prefix
    } else {
        match outcome {
            CopyOutcome::NotAttempted => prefix,
            CopyOutcome::Copied { perms_err: None } => prefix + "; Successfully installed"@,
            CopyOutcome::Copied { perms_err: Some(e) } => prefix + "; Successfully installed"@
                + "; Error changing permissions for \""@ + item.dest@ + "\". "@ + e@ + "."@,
            CopyOutcome::CopyFailed { err } => prefix + "; Could not copy file: "@ + err@,
        }
    }
}

impl InstallItem {
    /// An empty item: no paths, default policy.
    pub fn new() -> (r: InstallItem)
        ensures
            r.target@.len() == 0,
            r.dest@.len() == 0,
            r.perms == 0,
            !r.strip_ext,
            r.overwrite,
            r.comment@.len() == 0,
    {
        InstallItem {
            target: String::new(),
            dest: String::new(),
            perms: 0,
            strip_ext: false,
            overwrite: true,
            comment: String::new(),
        }
    }

    /// The destination path, for the index and for logging.
    pub fn print_dest(&self) -> (r: String)
        ensures
            r@ == self.dest@,
    {
        self.dest.clone()
    }

    /// Whether installing this item copies any bytes.
    pub fn needs_copy(&self, dest_exists: bool, do_dry_run: bool) -> (r: bool)
        ensures
            r == needs_copy_spec(*self, dest_exists, do_dry_run),
    {
        !do_dry_run && !(dest_exists && !self.overwrite)
    }

    /// Whether permission bits must be applied after a successful copy.
    pub fn needs_chmod(&self) -> (r: bool)
        ensures
            r == (self.perms != 0),
    {
        self.perms != 0
    }

    /// Settle one item: record the trace of what happened in `comment`
    /// and report the most severe applicable error.
    ///
    /// The caller performs the copy first exactly when `needs_copy` says
    /// so, and hands the result back in `outcome`.
    pub fn try_install(
        &mut self,
        do_dry_run: bool,
        dest_exists: bool,
        outcome: &CopyOutcome,
    ) -> (r: Result<(), CharonInstallError>)
        requires
            (*outcome is NotAttempted) == !needs_copy_spec(*old(self), dest_exists, do_dry_run),
            (*outcome matches CopyOutcome::Copied { perms_err: Some(_) }) ==> old(self).perms != 0,
        ensures
            final(self).target == old(self).target,
            final(self).dest == old(self).dest,
            final(self).perms == old(self).perms,
            final(self).strip_ext == old(self).strip_ext,
            final(self).overwrite == old(self).overwrite,
            final(self).comment@ == install_comment_spec(
                *old(self),
                dest_exists,
                do_dry_run,
                *outcome,
            ),
            r == install_result_spec(*old(self), dest_exists, do_dry_run, *outcome),
    {
        let mut comment: String = if self.comment.as_str().unicode_len() > 0 {
            let mut c = "#; ".to_owned();
            c.append(self.comment.as_str());
            c
        } else {
            "#".to_owned()
        };

        let result: Result<(), CharonInstallError> = if dest_exists && !self.overwrite {
            comment.append("; File exists && !overwrite");
            Err(CharonInstallError::FileExistsNoOverwrite)
        } else if do_dry_run {
            Err(CharonInstallError::DryRun)
        } else {
            match outcome {
                CopyOutcome::NotAttempted => Err(CharonInstallError::DryRun),
                CopyOutcome::Copied { perms_err: None } => {
                    comment.append("; Successfully installed");
                    Ok(())
                },
                CopyOutcome::Copied { perms_err: Some(e) } => {
                    comment.append("; Successfully installed");
                    comment.append("; Error changing permissions for \"");
                    comment.append(self.dest.as_str());
                    comment.append("\". ");
                    comment.append(e.as_str());
                    comment.append(".");
                    Err(CharonInstallError::BadPermissions(e.clone()))
                },
                CopyOutcome::CopyFailed { err } => {
                    comment.append("; Could not copy file: ");
                    comment.append(err.as_str());
                    Err(CharonInstallError::GenericIoError(err.clone()))
                },
            }
        };
        self.comment = comment;
        result
    }
}

/// A dry run never copies: whatever the item and whatever the state of
/// the destination, no copy is called for when simulating.
pub proof fn lemma_dry_run_never_copies(item: InstallItem, dest_exists: bool)
    ensures
        !needs_copy_spec(item, dest_exists, true),
{
}

/// A destination that exists and may not be overwritten is left alone:
/// no copy is called for, and the item reports `FileExistsNoOverwrite`,
/// in a dry run as well as in a real one.
pub proof fn lemma_no_overwrite_keeps_destination(
    item: InstallItem,
    do_dry_run: bool,
    outcome: CopyOutcome,
)
    requires
        !item.overwrite,
    ensures
        !needs_copy_spec(item, true, do_dry_run),
        install_result_spec(item, true, do_dry_run, outcome) == Err::<(), CharonInstallError>(
            CharonInstallError::FileExistsNoOverwrite,
        ),
{
}

} // verus!
