//! The workspace on disk and its clock: where the data lives, the names
//! of generated files and identifiers, backups, and how the local API
//! retries binding its port.
use vstd::prelude::*;
use crate::text::{decimal, owned, push_decimal, push_text, signed_decimal};

verus! {

/// Where the workspace data lives.
pub open spec fn data_root_text() -> Seq<char> {
    "D:\\工作台数据"@
}

/// The directory that holds the workspace data.
pub fn data_root() -> (r: String)
    ensures
        r@ == data_root_text(),
{
    owned("D:\\工作台数据")
}

/// The data location shown to the user.
pub fn data_location() -> (r: String)
    ensures
        r@ == data_root_text(),
{
    data_root()
}

/// The folders a workspace keeps below its data root.
pub fn data_folders() -> (r: Vec<String>)
    ensures
        crate::text::texts(r@) == seq!["cards"@, "originals"@, "assets"@, "inbox"@, "exports"@],
{
    let mut r: Vec<String> = Vec::new();
    r.push(owned("cards"));
    r.push(owned("originals"));
    r.push(owned("assets"));
    r.push(owned("inbox"));
    r.push(owned("exports"));
    assert(crate::text::texts(r@) =~= seq![
        "cards"@,
        "originals"@,
        "assets"@,
        "inbox"@,
        "exports"@,
    ]);
    r
}

/// The report of a ready workspace: its card count and data root.
pub fn workspace_ready_message(card_count: i64) -> (r: String)
    ensures
        r@ == "workspace_ready:cards="@ + signed_decimal(card_count as int) + ":root="@
            + data_root_text(),
{
    let mut r = owned("workspace_ready:cards=");
    let n = crate::text::i64_text(card_count);
    push_text(&mut r, n.as_str());
    push_text(&mut r, ":root=");
    push_text(&mut r, "D:\\工作台数据");
    r
}

/// Where the MySQL store is reached: always the loopback address.
pub struct MysqlSettings {
    pub host: String,
    pub port: u16,
    pub user: String,
    pub database: String,
    pub credential_service: String,
}

/// The MySQL store: `root` on `127.0.0.1:3306`, database
/// `personal_ai_workbench`, password under `HermesWorkbench/MySQL` in the
/// system credential store.
pub fn mysql_settings() -> (r: MysqlSettings)
    ensures
        r.host@ == "127.0.0.1"@,
        r.port == 3306,
        r.user@ == "root"@,
        r.database@ == "personal_ai_workbench"@,
        r.credential_service@ == "HermesWorkbench/MySQL"@,
{
    MysqlSettings {
        host: owned("127.0.0.1"),
        port: 3306,
        user: owned("root"),
        database: owned("personal_ai_workbench"),
        credential_service: owned("HermesWorkbench/MySQL"),
    }
}

/// The address the local API listens on: the loopback interface only.
pub fn local_api_address() -> (r: String)
    ensures
        r@ == "127.0.0.1:37821"@,
        "127.0.0.1:"@.is_prefix_of(r@),
{
    proof {
        reveal_strlit("127.0.0.1:37821");
        reveal_strlit("127.0.0.1:");
    }
    owned("127.0.0.1:37821")
}

// ---------------------------------------------------------------------------
// The clock
// ---------------------------------------------------------------------------

/// `std::time::SystemTime`, carried as an opaque value.
#[verifier::external_type_specification]
#[verifier::external_body]
pub struct ExSystemTime(std::time::SystemTime);

/// `SystemTime::now`: the current time; nothing is known of it.
#[verifier::external_body]
fn system_now() -> std::time::SystemTime {
    std::time::SystemTime::now()
}

/// `SystemTime::duration_since(UNIX_EPOCH)` in whole seconds; None for a
/// time before the epoch. Nothing is known of the value.
#[verifier::external_body]
fn whole_seconds_since_epoch(t: &std::time::SystemTime) -> Option<u64> {
    t.duration_since(std::time::UNIX_EPOCH).ok().map(|d| d.as_secs())
}

/// The seconds elapsed since the epoch as the clock reported them, 0 for
/// a clock set before the epoch.
pub fn seconds_or_zero(elapsed: Option<u64>) -> (r: u64)
    ensures
        r == match elapsed {
            Some(s) => s,
            None => 0,
        },
{
    match elapsed {
        Some(s) => s,
        None => 0,
    }
}

/// Seconds since the Unix epoch, 0 when the clock is set before it.
pub fn chrono_like_now() -> u64 {
    let t = system_now();
    seconds_or_zero(whole_seconds_since_epoch(&t))
}

/// The current time as a decimal number of seconds.
pub fn now_string() -> (r: String)
    ensures
        exists|n: u64| r@ == #[trigger] decimal(n as nat),
{
    let n = chrono_like_now();
    crate::text::u64_text(n)
}

/// The identifier of a card created at `now`: `card-<now>`.
pub fn new_card_id(now: u64) -> (r: String)
    ensures
        r@ == "card-"@ + decimal(now as nat),
{
    let mut r = owned("card-");
    push_decimal(&mut r, now);
    r
}

// ---------------------------------------------------------------------------
// Backups
// ---------------------------------------------------------------------------

/// What a backup holds, below the data root.
pub fn backup_entries() -> (r: Vec<String>)
    ensures
        crate::text::texts(r@) == seq![
            "workbench.db"@,
            "cards"@,
            "originals"@,
            "assets"@,
            "inbox"@,
        ],
{
    let mut r: Vec<String> = Vec::new();
    r.push(owned("workbench.db"));
    r.push(owned("cards"));
    r.push(owned("originals"));
    r.push(owned("assets"));
    r.push(owned("inbox"));
    assert(crate::text::texts(r@) =~= seq![
        "workbench.db"@,
        "cards"@,
        "originals"@,
        "assets"@,
        "inbox"@,
    ]);
    r
}

/// The name of a backup archive made at `now`.
pub fn backup_file_name(now: u64) -> (r: String)
    ensures
        r@ == "workbench-"@ + decimal(now as nat) + ".zip"@,
{
    let mut r = owned("workbench-");
    push_decimal(&mut r, now);
    push_text(&mut r, ".zip");
    r
}

/// What a backup does with an entry of the data root.
#[derive(PartialEq, Eq, Structural, Clone, Copy, Debug)]
pub enum BackupStep {
    AddFile,
    AddDirectory,
    Skip,
}

/// A file is added as it is, a directory with its contents, anything else
/// (a missing entry) is skipped.
pub fn backup_step(is_file: bool, is_dir: bool) -> (r: BackupStep)
    ensures
        is_file ==> r == BackupStep::AddFile,
        !is_file && is_dir ==> r == BackupStep::AddDirectory,
        !is_file && !is_dir ==> r == BackupStep::Skip,
{
    if is_file {
        BackupStep::AddFile
    } else if is_dir {
        BackupStep::AddDirectory
    } else {
        BackupStep::Skip
    }
}

/// The archive name of a directory entry: the directory's archive name, a
/// slash and the entry's file name (`file` when it has none).
pub fn zip_entry_name(prefix: &str, file_name: Option<String>) -> (r: String)
    ensures
        r@ == prefix@ + "/"@ + match file_name {
            Some(f) => f@,
            None => "file"@,
        },
{
    let mut r = owned(prefix);
    push_text(&mut r, "/");
    match file_name {
        Some(f) => push_text(&mut r, f.as_str()),
        None => push_text(&mut r, "file"),
    }
    r
}

// ---------------------------------------------------------------------------
// Binding the local API
// ---------------------------------------------------------------------------

/// How many times the local API tries to bind its port.
pub const BIND_ATTEMPTS: u32 = 10;

/// What the local API does after trying to bind its port.
#[derive(PartialEq, Eq, Structural, Clone, Copy, Debug)]
pub enum BindStep {
    /// The port is bound: serve requests.
    Serve,
    /// Report failed attempt `report` (counted from 1), wait, then make
    /// attempt `next` (counted from 0).
    Retry { report: u32, next: u32 },
    /// Report failed attempt `report`, wait, then report that the API is
    /// unavailable.
    GiveUp { report: u32 },
}

/// The step after attempt `attempt` (from 0) bound the port or not.
pub fn after_bind(attempt: u32, bound: bool) -> (r: BindStep)
    requires
        attempt < BIND_ATTEMPTS,
    ensures
        bound ==> r == BindStep::Serve,
        !bound && attempt + 1 < BIND_ATTEMPTS ==> r == (BindStep::Retry {
            report: (attempt + 1) as u32,
            next: (attempt + 1) as u32,
        }),
        !bound && attempt + 1 >= BIND_ATTEMPTS ==> r == (BindStep::GiveUp {
            report: (attempt + 1) as u32,
        }),
{
    if bound {
        BindStep::Serve
    } else if attempt + 1 < BIND_ATTEMPTS {
        BindStep::Retry { report: attempt + 1, next: attempt + 1 }
    } else {
        BindStep::GiveUp { report: attempt + 1 }
    }
}

} // verus!
