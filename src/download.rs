use vstd::prelude::*;

use crate::text::{decimal, decimal_text};

verus! {

/// The result of fetching an installer. `installer_path` means something only
/// when `success` holds.
pub struct DownloadResult {
    pub success: bool,
    pub message: String,
    pub installer_path: String,
}

/// What to do after the primary mirror was tried.
pub enum DownloadStep {
    /// Nothing more to fetch.
    Finished(Result<DownloadResult, String>),
    /// Fetch from this backup URL, then call `finish_backup_download`.
    TryBackup(String),
}

/// `major.minor` in decimal.
pub open spec fn version_label(major: u32, minor: u32) -> Seq<char> {
    decimal(major as nat) + "."@ + decimal(minor as nat)
}

/// The name the installer of a version is saved under.
pub open spec fn installer_filename_spec(major: u32, minor: u32) -> Seq<char> {
    "byond_"@ + version_label(major, minor) + "_byond.exe"@
}

/// The path of a version's installer below a mirror's root:
/// `{major}/{major}.{minor}_byond.exe`.
pub open spec fn mirror_suffix(major: u32, minor: u32) -> Seq<char> {
    decimal(major as nat) + "/"@ + version_label(major, minor) + "_byond.exe"@
}

pub open spec fn primary_url_spec(major: u32, minor: u32) -> Seq<char> {
    "https://www.byond.com/download/build/"@ + mirror_suffix(major, minor)
}

pub open spec fn backup_url_spec(major: u32, minor: u32) -> Seq<char> {
    "https://spacestation13.github.io/byond-builds/"@ + mirror_suffix(major, minor)
}

fn version_label_text(major: u32, minor: u32) -> (r: String)
    ensures
        r@ == version_label(major, minor),
{
    let mut r = decimal_text(major);
    r.append(".");
    r.append(decimal_text(minor).as_str());
    r
}

fn mirror_suffix_text(major: u32, minor: u32) -> (r: String)
    ensures
        r@ == mirror_suffix(major, minor),
{
    let mut r = decimal_text(major);
    r.append("/");
    r.append(version_label_text(major, minor).as_str());
    r.append("_byond.exe");
    r
}

/// The file name the installer of `major.minor` is saved under.
pub fn installer_filename(major: u32, minor: u32) -> (r: String)
    ensures
        r@ == installer_filename_spec(major, minor),
{
    let mut r = String::from_str("byond_");
    r.append(version_label_text(major, minor).as_str());
    r.append("_byond.exe");
    r
}

/// Where the installer of `major.minor` is fetched from first.
pub fn primary_url(major: u32, minor: u32) -> (r: String)
    ensures
        r@ == primary_url_spec(major, minor),
{
    String::from_str("https://www.byond.com/download/build/").concat(
        mirror_suffix_text(major, minor).as_str(),
    )
}

/// Where the installer of `major.minor` is fetched from when the primary
/// mirror fails.
pub fn backup_url(major: u32, minor: u32) -> (r: String)
    ensures
        r@ == backup_url_spec(major, minor),
{
    String::from_str("https://spacestation13.github.io/byond-builds/").concat(
        mirror_suffix_text(major, minor).as_str(),
    )
}

/// A response status is a success when it is in the 2xx range.
pub open spec fn is_success_status(code: u16) -> bool {
    200 <= code && code <= 299
}

/// Decides on a response's status: any status outside 2xx fails the fetch,
/// with `shown` (the status as it prints) in the message.
pub fn check_response_status(code: u16, shown: &str) -> (r: Result<(), String>)
    ensures
        is_success_status(code) <==> r is Ok,
        r matches Err(m) ==> m@ == "Failed to download file: HTTP status "@ + shown@,
{
    if 200 <= code && code <= 299 {
        Ok(())
    } else {
        Err(String::from_str("Failed to download file: HTTP status ").concat(shown))
    }
}

pub open spec fn primary_success_text(major: u32, minor: u32) -> Seq<char> {
    "Successfully downloaded BYOND "@ + version_label(major, minor) + " installer"@
}

pub open spec fn backup_success_text(major: u32, minor: u32) -> Seq<char> {
    "Successfully downloaded BYOND "@ + version_label(major, minor)
        + " installer from backup source"@
}

pub open spec fn both_failed_text(primary: Seq<char>, backup: Seq<char>) -> Seq<char> {
    "Failed to download BYOND installer from both sources. Primary error: "@ + primary
        + ", Backup error: "@ + backup
}

/// Decides what follows the fetch from the primary mirror into
/// `installer_path`: success ends the download, a failure sends it to the
/// backup mirror.
pub fn download_byond_installer(
    major: u32,
    minor: u32,
    installer_path: &str,
    primary: Result<(), String>,
) -> (r: DownloadStep)
    ensures
        match primary {
            Ok(()) => r matches DownloadStep::Finished(Ok(d)) && d.success && d.message@
                == primary_success_text(major, minor) && d.installer_path@ == installer_path@,
            Err(_) => r matches DownloadStep::TryBackup(url) && url@ == backup_url_spec(
                major,
                minor,
            ),
        },
{
    match primary {
        Ok(()) => {
            let mut message = String::from_str("Successfully downloaded BYOND ");
            message.append(version_label_text(major, minor).as_str());
            message.append(" installer");
            DownloadStep::Finished(
                Ok(
                    DownloadResult {
                        success: true,
                        message,
                        installer_path: String::from_str(installer_path),
                    },
                ),
            )
        },
        Err(_) => DownloadStep::TryBackup(backup_url(major, minor)),
    }
}

/// Settles a download whose primary fetch failed with `primary_error`, from
/// the fetch from the backup mirror. When both failed, the error keeps both
/// messages.
pub fn finish_backup_download(
    major: u32,
    minor: u32,
    installer_path: &str,
    primary_error: &str,
    backup: Result<(), String>,
) -> (r: Result<DownloadResult, String>)
    ensures
        match backup {
            Ok(()) => r matches Ok(d) && d.success && d.message@ == backup_success_text(
                major,
                minor,
            ) && d.installer_path@ == installer_path@,
            Err(b) => r matches Err(m) && m@ == both_failed_text(primary_error@, b@),
        },
{
    match backup {
        Ok(()) => {
            let mut message = String::from_str("Successfully downloaded BYOND ");
            message.append(version_label_text(major, minor).as_str());
            message.append(" installer from backup source");
            Ok(
                DownloadResult {
                    success: true,
                    message,
                    installer_path: String::from_str(installer_path),
                },
            )
        },
        Err(b) => {
            let mut m = String::from_str(
                "Failed to download BYOND installer from both sources. Primary error: ",
            );
            m.append(primary_error);
            m.append(", Backup error: ");
            m.append(b.as_str());
            Err(m)
        },
    }
}

/// When both mirrors fail, the error holds each failure's message whole,
/// the primary one first.
pub proof fn lemma_both_failures_kept(primary: Seq<char>, backup: Seq<char>)
    ensures
        ({
            let m = both_failed_text(primary, backup);
            let i = "Failed to download BYOND installer from both sources. Primary error: "@.len() as int;
            let j = i + primary.len() + ", Backup error: "@.len();
            &&& m.subrange(i, i + primary.len()) == primary
            &&& m.subrange(j, j + backup.len()) == backup
            &&& j + backup.len() == m.len()
        }),
{
    let m = both_failed_text(primary, backup);
    let i = "Failed to download BYOND installer from both sources. Primary error: "@.len() as int;
    let j = i + primary.len() + ", Backup error: "@.len();
    assert(m.subrange(i, i + primary.len()) =~= primary);
    assert(m.subrange(j, j + backup.len()) =~= backup);
}

} // verus!
