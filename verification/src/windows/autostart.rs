//! The task that starts the daemon when the user logs on.
use vstd::prelude::*;
use vstd::string::StringExecFns;

use crate::text::{joined, push_word, text_of, trim};
use crate::windows::paths::join;

verus! {

/// The name of the task.
pub const TASK_NAME: &'static str = "Boltsnap Daemon";

/// The script that registers and starts the task. What it needs to know is in its environment.
pub const INSTALL_SCRIPT: &'static str = "
$ErrorActionPreference = 'Stop'
$taskName = $env:BOLTSNAP_TASK_NAME
$executable = $env:BOLTSNAP_TASK_EXECUTABLE
$workingDirectory = $env:BOLTSNAP_TASK_WORKING_DIRECTORY
$user = [System.Security.Principal.WindowsIdentity]::GetCurrent().Name
Stop-ScheduledTask -TaskName $taskName -ErrorAction SilentlyContinue
$action = New-ScheduledTaskAction -Execute $executable -WorkingDirectory $workingDirectory
$trigger = New-ScheduledTaskTrigger -AtLogOn -User $user
$trigger.Delay = 'PT3S'
$principal = New-ScheduledTaskPrincipal -UserId $user -LogonType Interactive -RunLevel Limited
$settings = New-ScheduledTaskSettingsSet -AllowStartIfOnBatteries -DontStopIfGoingOnBatteries -StartWhenAvailable -MultipleInstances IgnoreNew -RestartCount 3 -RestartInterval (New-TimeSpan -Minutes 1) -ExecutionTimeLimit ([TimeSpan]::Zero)
Register-ScheduledTask -TaskName $taskName -Action $action -Trigger $trigger -Principal $principal -Settings $settings -Description 'Starts the Boltsnap screenshot daemon for the current user at logon.' -Force | Out-Null
Start-ScheduledTask -TaskName $taskName
";

/// The script that stops and removes the task.
pub const REMOVE_SCRIPT: &'static str = "
$ErrorActionPreference = 'Stop'
$taskName = $env:BOLTSNAP_TASK_NAME
Stop-ScheduledTask -TaskName $taskName -ErrorAction SilentlyContinue
Unregister-ScheduledTask -TaskName $taskName -Confirm:$false -ErrorAction SilentlyContinue
";

/// The program that the task starts, given the directory of this one and whether it is there.
pub fn launcher(directory: &str, is_file: bool) -> (r: Result<String, String>)
    ensures
        ({
            let path = crate::windows::paths::under(directory@, "boltsnap-background.exe"@);
            if is_file {
                r matches Ok(found) && found@ == path
            } else {
                r matches Err(message) && message@
                    == "Boltsnap background launcher is missing: "@ + path
            }
        }),
{
    let path = join(directory, "boltsnap-background.exe");
    if is_file {
        Ok(path)
    } else {
        Err(joined("Boltsnap background launcher is missing: ", path.as_str()))
    }
}

/// Where PowerShell is, given the folder of Windows.
pub fn powershell_path(system_root: Option<&str>) -> (r: String)
    ensures
        ({
            let root = match system_root {
                Some(root) => root@,
                None => "C:\\Windows"@,
            };
            r@ == crate::windows::paths::under(
                crate::windows::paths::under(
                    crate::windows::paths::under(
                        crate::windows::paths::under(root, "System32"@),
                        "WindowsPowerShell"@,
                    ),
                    "v1.0"@,
                ),
                "powershell.exe"@,
            )
        }),
{
    let root = match system_root {
        Some(root) => root,
        None => "C:\\Windows",
    };
    let system = join(root, "System32");
    let shell = join(system.as_str(), "WindowsPowerShell");
    let version = join(shell.as_str(), "v1.0");
    join(version.as_str(), "powershell.exe")
}

/// The words that run a script.
pub fn powershell_args(script: &str) -> (r: Vec<String>)
    ensures
        crate::text::views(r@) == seq![
            "-NoLogo"@,
            "-NoProfile"@,
            "-NonInteractive"@,
            "-ExecutionPolicy"@,
            "Bypass"@,
            "-Command"@,
            script@,
        ],
{
    let mut words: Vec<String> = Vec::new();
    push_word(&mut words, "-NoLogo");
    push_word(&mut words, "-NoProfile");
    push_word(&mut words, "-NonInteractive");
    push_word(&mut words, "-ExecutionPolicy");
    push_word(&mut words, "Bypass");
    push_word(&mut words, "-Command");
    push_word(&mut words, script);
    proof {
        assert(crate::text::views(words@) =~= seq![
            "-NoLogo"@,
            "-NoProfile"@,
            "-NonInteractive"@,
            "-ExecutionPolicy"@,
            "Bypass"@,
            "-Command"@,
            script@,
        ]);
    }
    words
}

/// Whether a script ended well. What it said of an error is shown, or else what it printed.
pub fn ensure_success(action: &str, success: bool, printed: &[u8], errors: &[u8]) -> (r: Result<
    (),
    String,
>)
    ensures
        if success {
            r is Ok
        } else {
            let said = crate::text::trimmed(crate::text::lossy(errors@));
            let shown = crate::text::trimmed(crate::text::lossy(printed@));
            r matches Err(message) && message@ == "could not "@ + action@ + ": "@ + (if said.len()
                > 0 {
                said
            } else {
                shown
            })
        },
{
    if success {
        return Ok(());
    }
    let said = trim(text_of(errors).as_str());
    let shown = trim(text_of(printed).as_str());
    let mut message: String = joined("could not ", action);
    message.append(": ");
    if said.as_str().unicode_len() > 0 {
        message.append(said.as_str());
    } else {
        message.append(shown.as_str());
    }
    Err(message)
}

/// Whether the daemon started: `None` where it is looked at again.
pub fn started(alive: bool, expired: bool) -> (r: Option<Result<(), String>>)
    ensures
        if expired {
            r matches Some(Err(message)) && message@
                == "Boltsnap autostart task was registered but the daemon did not start"@
        } else if alive {
            r matches Some(Ok(_))
        } else {
            r is None
        },
{
    if expired {
        Some(
            Err(
                "Boltsnap autostart task was registered but the daemon did not start".to_owned(),
            ),
        )
    } else if alive {
        Some(Ok(()))
    } else {
        None
    }
}

/// The daemon that the background launcher starts, given the launcher's directory.
pub fn daemon_path(directory: &str) -> (r: String)
    ensures
        r@ == crate::windows::paths::under(directory@, "boltsnap.exe"@),
{
    join(directory, "boltsnap.exe")
}

/// The status that the background launcher ends with: that of the daemon, where it ran and has one.
pub fn exit_code(status: Option<Option<i32>>) -> (r: i32)
    ensures
        r == (match status {
            Some(Some(code)) => code,
            _ => 1i32,
        }),
{
    match status {
        Some(Some(code)) => code,
        _ => 1,
    }
}

/// The launcher is found beside the program where it is there, and the daemon is the program itself.
pub proof fn lemma_launcher(
    directory: &str,
    is_file: bool,
    found: Result<String, String>,
    daemon: String,
)
    requires
        call_ensures(launcher, (directory, is_file), found),
        call_ensures(daemon_path, (directory,), daemon),
    ensures
        found is Ok <==> is_file,
        found matches Ok(path) ==> path@ == crate::windows::paths::under(
            directory@,
            "boltsnap-background.exe"@,
        ),
        daemon@ == crate::windows::paths::under(directory@, "boltsnap.exe"@),
{
}

/// A script is run as the last word, without profile and without questions.
pub proof fn lemma_script(script: &str, words: Vec<String>)
    requires
        call_ensures(powershell_args, (script,), words),
    ensures
        words@.len() == 7,
        words@[5]@ == "-Command"@,
        words@[6]@ == script@,
        words@[3]@ == "-ExecutionPolicy"@ && words@[4]@ == "Bypass"@,
        words@[1]@ == "-NoProfile"@,
        words@[2]@ == "-NonInteractive"@,
{
    let told = crate::text::views(words@);
    assert(told.len() == 7);
    assert(told[1] == words@[1]@);
    assert(told[2] == words@[2]@);
    assert(told[3] == words@[3]@);
    assert(told[4] == words@[4]@);
    assert(told[5] == words@[5]@);
    assert(told[6] == words@[6]@);
}

/// A script that failed is told by its errors, or else by what it printed.
pub proof fn lemma_failed(
    action: &str,
    success: bool,
    printed: &[u8],
    errors: &[u8],
    r: Result<(), String>,
)
    requires
        call_ensures(ensure_success, (action, success, printed, errors), r),
    ensures
        r is Ok <==> success,
        r matches Err(message) ==> {
            let said = crate::text::trimmed(crate::text::lossy(errors@));
            let shown = crate::text::trimmed(crate::text::lossy(printed@));
            &&& said.len() > 0 ==> crate::text::has_suffix(message@, said)
            &&& said.len() == 0 ==> crate::text::has_suffix(message@, shown)
            &&& crate::text::without_prefix(message@, "could not "@ + action@ + ": "@) is Some
        },
{
    if let Err(message) = r {
        let said = crate::text::trimmed(crate::text::lossy(errors@));
        let shown = crate::text::trimmed(crate::text::lossy(printed@));
        let head = "could not "@ + action@ + ": "@;
        assert(message@.take(head.len() as int) =~= head);
        if said.len() > 0 {
            assert(message@.skip(message@.len() - said.len()) =~= said);
        } else {
            assert(message@.skip(message@.len() - shown.len()) =~= shown);
        }
    }
}

/// The daemon has started where it is alive in time; its end is passed on.
pub proof fn lemma_started(
    alive: bool,
    expired: bool,
    r: Option<Result<(), String>>,
    status: Option<Option<i32>>,
    code: i32,
)
    requires
        call_ensures(started, (alive, expired), r),
        call_ensures(exit_code, (status,), code),
    ensures
        r is None <==> !alive && !expired,
        r is Some && r->Some_0 is Ok <==> alive && !expired,
        status is Some && status->Some_0 is Some ==> code == status->Some_0->Some_0,
        status is None || status->Some_0 is None ==> code == 1,
{
}

/// The shell is the system's own, below the system's folder.
pub proof fn lemma_powershell(system_root: Option<&str>, path: String)
    requires
        call_ensures(powershell_path, (system_root,), path),
    ensures
        system_root matches Some(root) ==> path@ == crate::windows::paths::under(
            crate::windows::paths::under(
                crate::windows::paths::under(
                    crate::windows::paths::under(root@, "System32"@),
                    "WindowsPowerShell"@,
                ),
                "v1.0"@,
            ),
            "powershell.exe"@,
        ),
        crate::text::has_suffix(path@, "powershell.exe"@),
{
    let root = match system_root {
        Some(root) => root@,
        None => "C:\\Windows"@,
    };
    crate::windows::paths::lemma_under(
        crate::windows::paths::under(
            crate::windows::paths::under(
                crate::windows::paths::under(root, "System32"@),
                "WindowsPowerShell"@,
            ),
            "v1.0"@,
        ),
        "powershell.exe"@,
    );
}

} // verus!
