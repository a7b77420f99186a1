use vstd::prelude::*;

use crate::version::{join_path, join_path_text};

verus! {

/// The result of running an installer.
pub struct InstallResult {
    pub success: bool,
    pub message: String,
}

/// What running an installer gave.
pub enum InstallerRun {
    /// No installer at the given path.
    Missing,
    /// The installer could not be started; the system's reason.
    NotStarted(String),
    /// The installer ran to its end. Besides its exit status, whether the
    /// client executable now stands in the default installation directory and
    /// whether the configuration-store key of an installation exists.
    Finished { exit_success: bool, launcher_found: bool, registry_found: bool },
}

pub open spec fn default_install_dir_spec() -> Seq<char> {
    "C:\\Program Files (x86)\\BYOND"@
}

pub open spec fn launcher_relative() -> Seq<char> {
    "bin\\dreamseeker.exe"@
}

/// The configuration-store key, under the current user, that a finished
/// installation writes.
pub fn registry_key_path() -> (r: &'static str)
    ensures
        r@ == "Software\\Dantom\\BYOND"@,
{
    "Software\\Dantom\\BYOND"
}

/// The directory the installer puts the runtime in by default.
pub fn default_install_dir() -> (r: &'static str)
    ensures
        r@ == default_install_dir_spec(),
{
    "C:\\Program Files (x86)\\BYOND"
}

/// The client executable whose presence after an installation shows that it
/// succeeded.
pub fn default_launcher_path() -> (r: String)
    ensures
        r@ == join_path(default_install_dir_spec(), launcher_relative()),
{
    join_path_text(default_install_dir(), "bin\\dreamseeker.exe")
}

pub open spec fn unverified_text() -> Seq<char> {
    "BYOND installation could not be verified. The installation may have been cancelled or failed."@
}

/// The outcome of an installation as a message: `Ok` with the success
/// message, or `Err` with the reason.
pub open spec fn install_verdict(installer_path: Seq<char>, run: InstallerRun) -> Result<
    Seq<char>,
    Seq<char>,
> {
    match run {
        InstallerRun::Missing => Err("Installer not found at "@ + installer_path),
        InstallerRun::NotStarted(e) => Err("Failed to execute installer: "@ + e@),
        InstallerRun::Finished { launcher_found, registry_found, .. } => if launcher_found
            || registry_found {
            Ok("BYOND installed successfully at "@ + default_install_dir_spec())
        } else {
            Err(unverified_text())
        },
    }
}

/// Settles the installation from the installer at `installer_path`. Its exit
/// status decides nothing: the installation succeeded when either probe
/// found it.
pub fn install_byond(installer_path: &str, run: InstallerRun) -> (r: Result<InstallResult, String>)
    ensures
        match r {
            Ok(res) => res.success && install_verdict(installer_path@, run) == Ok::<
                Seq<char>,
                Seq<char>,
            >(res.message@),
            Err(m) => install_verdict(installer_path@, run) == Err::<Seq<char>, Seq<char>>(m@),
        },
{
    match run {
        InstallerRun::Missing => Err(
            String::from_str("Installer not found at ").concat(installer_path),
        ),
        InstallerRun::NotStarted(e) => Err(
            String::from_str("Failed to execute installer: ").concat(e.as_str()),
        ),
        InstallerRun::Finished { launcher_found, registry_found, .. } => {
            if launcher_found || registry_found {
                Ok(
                    InstallResult {
                        success: true,
                        message: String::from_str("BYOND installed successfully at ").concat(
                            default_install_dir(),
                        ),
                    },
                )
            } else {
                Err(
                    String::from_str(
                        "BYOND installation could not be verified. The installation may have been cancelled or failed.",
                    ),
                )
            }
        },
    }
}

/// An installation is judged by the two probes alone: whatever the exit
/// status, it succeeds exactly when one of them found the runtime.
pub proof fn lemma_exit_status_decides_nothing(
    installer_path: Seq<char>,
    exit_success: bool,
    launcher_found: bool,
    registry_found: bool,
)
    ensures
        install_verdict(
            installer_path,
            InstallerRun::Finished { exit_success, launcher_found, registry_found },
        ) is Ok <==> (launcher_found || registry_found),
        install_verdict(
            installer_path,
            InstallerRun::Finished { exit_success, launcher_found, registry_found },
        ) == install_verdict(
            installer_path,
            InstallerRun::Finished { exit_success: !exit_success, launcher_found, registry_found },
        ),
{
}

} // verus!
