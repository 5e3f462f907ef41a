//! The package-manager post-transaction hook: its body and install path.
//! Writing the file to disk is the caller's job.

use vstd::prelude::*;

verus! {

/// The body of the post-transaction hook. The trigger is kept broad; the
/// relink pass reads persisted state and only relinks managed targets.
pub fn hook_body() -> (r: String)
    ensures
        r@ ==
        "[Trigger]\nType = Package\nOperation = Install\nOperation = Upgrade\nOperation = Remove\nTarget = coreutils\nTarget = findutils\nTarget = sudo\nTarget = sudo-rs\n\n[Action]\nDescription = Relink oxidizr-arch managed symlinks\nWhen = PostTransaction\nExec = /usr/bin/oxidizr-arch relink-managed --assume-yes --no-update --no-progress\n"@,
{
    "[Trigger]\nType = Package\nOperation = Install\nOperation = Upgrade\nOperation = Remove\nTarget = coreutils\nTarget = findutils\nTarget = sudo\nTarget = sudo-rs\n\n[Action]\nDescription = Relink oxidizr-arch managed symlinks\nWhen = PostTransaction\nExec = /usr/bin/oxidizr-arch relink-managed --assume-yes --no-update --no-progress\n".to_owned()
}

/// The absolute path where the hook is installed.
pub fn hook_path() -> (r: String)
    ensures
        r@ == "/usr/share/libalpm/hooks/oxidizr-arch-relink.hook"@,
{
    "/usr/share/libalpm/hooks/oxidizr-arch-relink.hook".to_owned()
}

} // verus!
