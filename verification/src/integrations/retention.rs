//! Retention settings, the policies of each compliance level, and the
//! bookkeeping of archival runs.

use vstd::prelude::*;
use crate::integrations::vault::{ArchiveEntry, BatchArchiveResponse, ComplianceLevel, RetentionPolicy, compliance_text};
use crate::ids::uuid_text;
use crate::order::reversed;

verus! {

/// Settings of the archival scheduler.
#[derive(Debug, Clone, Copy, PartialEq, Eq, Structural)]
pub struct SchedulerConfig {
    /// Hours between archival runs
    pub interval_hours: u64,
    /// Sessions older than this many days are archived
    pub archive_after_days: i64,
    /// Days archived sessions are kept by default
    pub retention_days: i64,
    /// Most sessions archived per batch
    pub batch_size: usize,
    /// Default compliance level
    pub default_compliance_level: ComplianceLevel,
    /// Whether archival runs at all
    pub enabled: bool,
}

impl SchedulerConfig {
    /// Run daily, archive sessions older than 30 days, keep them a year,
    /// in batches of 100, at the standard level.
    pub fn new() -> (c: Self)
        ensures
            c == (SchedulerConfig {
                interval_hours: 24,
                archive_after_days: 30,
                retention_days: 365,
                batch_size: 100,
                default_compliance_level: ComplianceLevel::Standard,
                enabled: true,
            }),
    {
        SchedulerConfig {
            interval_hours: 24,
            archive_after_days: 30,
            retention_days: 365,
            batch_size: 100,
            default_compliance_level: ComplianceLevel::Standard,
            enabled: true,
        }
    }

    /// Set the hours between runs.
    pub fn with_interval_hours(self, hours: u64) -> (c: Self)
        ensures
            c == (SchedulerConfig { interval_hours: hours, ..self }),
    {
        SchedulerConfig { interval_hours: hours, ..self }
    }

    /// Set the age, in days, from which sessions are archived.
    pub fn with_archive_after_days(self, days: i64) -> (c: Self)
        ensures
            c == (SchedulerConfig { archive_after_days: days, ..self }),
    {
        SchedulerConfig { archive_after_days: days, ..self }
    }

    /// Set the retention period in days.
    pub fn with_retention_days(self, days: i64) -> (c: Self)
        ensures
            c == (SchedulerConfig { retention_days: days, ..self }),
    {
        SchedulerConfig { retention_days: days, ..self }
    }

    /// Set the batch size.
    pub fn with_batch_size(self, size: usize) -> (c: Self)
        ensures
            c == (SchedulerConfig { batch_size: size, ..self }),
    {
        SchedulerConfig { batch_size: size, ..self }
    }

    /// Set the default compliance level.
    pub fn with_compliance_level(self, level: ComplianceLevel) -> (c: Self)
        ensures
            c == (SchedulerConfig { default_compliance_level: level, ..self }),
    {
        SchedulerConfig { default_compliance_level: level, ..self }
    }

    /// Enable or disable archival.
    pub fn with_enabled(self, enabled: bool) -> (c: Self)
        ensures
            c == (SchedulerConfig { enabled, ..self }),
    {
        SchedulerConfig { enabled, ..self }
    }

    /// The time between runs in seconds; `None` when it does not fit.
    pub fn interval_secs(&self) -> (r: Option<u64>)
        ensures
            self.interval_hours * 3600 <= u64::MAX ==> r == Some((self.interval_hours * 3600) as u64),
            self.interval_hours * 3600 > u64::MAX ==> r is None,
    {
        self.interval_hours.checked_mul(3600)
    }
}

/// Counts of one archival run.
#[derive(Debug, Clone, Copy, PartialEq, Eq, Structural)]
pub struct ArchivalStats {
    /// Sessions processed
    pub total_processed: usize,
    /// Sessions archived
    pub archived_count: usize,
    /// Sessions that failed
    pub failed_count: usize,
    /// Sessions skipped
    pub skipped_count: usize,
    /// Time taken in milliseconds
    pub duration_ms: u64,
}

impl ArchivalStats {
    /// All counts zero.
    pub fn new() -> (s: Self)
        ensures
            s == (ArchivalStats { total_processed: 0, archived_count: 0, failed_count: 0, skipped_count: 0, duration_ms: 0 }),
    {
        ArchivalStats { total_processed: 0, archived_count: 0, failed_count: 0, skipped_count: 0, duration_ms: 0 }
    }

    /// The counts of a batch of `total` sessions, from the vault's answer.
    pub fn from_batch(total: usize, response: &BatchArchiveResponse) -> (s: Self)
        ensures
            s == (ArchivalStats {
                total_processed: total,
                archived_count: response.success_count,
                failed_count: response.failed@.len() as usize,
                skipped_count: 0,
                duration_ms: 0,
            }),
    {
        ArchivalStats {
            total_processed: total,
            archived_count: response.success_count,
            failed_count: response.failed.len(),
            skipped_count: 0,
            duration_ms: 0,
        }
    }
}

/// The days a compliance level keeps data: a year for standard data,
/// three years for PCI-DSS, seven years otherwise.
pub open spec fn compliance_days(c: ComplianceLevel) -> i64 {
    match c {
        ComplianceLevel::Standard => 365,
        ComplianceLevel::Hipaa => 2555,
        ComplianceLevel::Gdpr => 2555,
        ComplianceLevel::Pci => 1095,
        ComplianceLevel::Soc2 => 2555,
    }
}

/// The days a compliance level keeps data.
pub fn retention_days_for(level: ComplianceLevel) -> (d: i64)
    ensures
        d == compliance_days(level),
{
    match level {
        ComplianceLevel::Standard => 365,
        ComplianceLevel::Hipaa => 2555,
        ComplianceLevel::Gdpr => 2555,
        ComplianceLevel::Pci => 1095,
        ComplianceLevel::Soc2 => 2555,
    }
}

/// The policy the scheduler creates for a compliance level: the level's
/// retention, no auto-deletion, tagged with the level's name.
pub fn compliance_policy(name: String, level: ComplianceLevel) -> (p: RetentionPolicy)
    ensures
        p.name == name,
        p.retention_days == compliance_days(level),
        !p.auto_delete,
        p.compliance_level == level,
        p.tags@.len() == 1,
        p.tags@[0]@ == compliance_text(level),
{
    let days = retention_days_for(level);
    RetentionPolicy::new(name, days, level)
        .with_auto_delete(false)
        .with_tag(String::from_str(level.as_str()))
}

/// A standard policy keeping data for `retention_days`.
pub fn standard_policy(name: String, retention_days: i64) -> (p: RetentionPolicy)
    ensures
        p.name == name,
        p.retention_days == retention_days,
        p.compliance_level == ComplianceLevel::Standard,
        !p.auto_delete,
        p.tags@.len() == 0,
{
    RetentionPolicy::new(name, retention_days, ComplianceLevel::Standard)
}

/// The HIPAA policy: seven years, tagged for healthcare.
pub fn hipaa_policy(name: String) -> (p: RetentionPolicy)
    ensures
        p.name == name,
        p.retention_days == 2555,
        p.compliance_level == ComplianceLevel::Hipaa,
        p.description@ == "HIPAA 7-year retention requirement"@,
        p.tags@.len() == 2 && p.tags@[0]@ == "healthcare"@ && p.tags@[1]@ == "compliance"@,
{
    RetentionPolicy::new(name, 2555, ComplianceLevel::Hipaa)
        .with_description(String::from_str("HIPAA 7-year retention requirement"))
        .with_tag(String::from_str("healthcare"))
        .with_tag(String::from_str("compliance"))
}

/// The GDPR policy: seven years.
pub fn gdpr_policy(name: String) -> (p: RetentionPolicy)
    ensures
        p.name == name,
        p.retention_days == 2555,
        p.compliance_level == ComplianceLevel::Gdpr,
        p.description@ == "GDPR 7-year retention for financial records"@,
        p.tags@.len() == 2 && p.tags@[0]@ == "gdpr"@ && p.tags@[1]@ == "compliance"@,
{
    RetentionPolicy::new(name, 2555, ComplianceLevel::Gdpr)
        .with_description(String::from_str("GDPR 7-year retention for financial records"))
        .with_tag(String::from_str("gdpr"))
        .with_tag(String::from_str("compliance"))
}

/// The PCI-DSS policy: three years, tagged for payments.
pub fn pci_policy(name: String) -> (p: RetentionPolicy)
    ensures
        p.name == name,
        p.retention_days == 1095,
        p.compliance_level == ComplianceLevel::Pci,
        p.description@ == "PCI-DSS 3-year retention requirement"@,
        p.tags@.len() == 2 && p.tags@[0]@ == "payment"@ && p.tags@[1]@ == "compliance"@,
{
    RetentionPolicy::new(name, 1095, ComplianceLevel::Pci)
        .with_description(String::from_str("PCI-DSS 3-year retention requirement"))
        .with_tag(String::from_str("payment"))
        .with_tag(String::from_str("compliance"))
}

/// What the archival loop does on a tick of its timer.
#[derive(Debug, Clone, Copy, PartialEq, Eq, Structural)]
pub enum SchedulerAction {
    /// Run one archival iteration
    RunIteration,
    /// The scheduler was stopped: leave the loop
    Stop,
}

/// Schedules archival of old sessions to the vault: the settings, and
/// whether the loop is running.
#[derive(Debug, Clone, Copy, PartialEq, Eq, Structural)]
pub struct ArchivalScheduler {
    /// Settings
    pub config: SchedulerConfig,
    /// Whether the archival loop runs
    pub running: bool,
}

impl ArchivalScheduler {
    /// A scheduler with the given settings, not yet started.
    pub fn new(config: SchedulerConfig) -> (s: Self)
        ensures
            s == (ArchivalScheduler { config, running: false }),
    {
        ArchivalScheduler { config, running: false }
    }

    /// Start the archival loop: a disabled scheduler starts nothing and
    /// gives `None`; otherwise the scheduler runs and the seconds between
    /// ticks come back.
    pub fn start(&mut self) -> (interval: Option<u64>)
        requires
            old(self).config.enabled ==> 0 < old(self).config.interval_hours * 3600 <= u64::MAX,
        ensures
            !old(self).config.enabled ==> interval is None && *final(self) == *old(self),
            old(self).config.enabled ==> interval == Some((old(self).config.interval_hours * 3600) as u64)
                && *final(self) == (ArchivalScheduler { running: true, ..*old(self) }),
    {
        if !self.config.enabled {
            return None;
        }
        self.running = true;
        Some(self.config.interval_hours * 3600)
    }

    /// Stop the archival loop at its next tick.
    pub fn stop(&mut self)
        ensures
            *final(self) == (ArchivalScheduler { running: false, ..*old(self) }),
    {
        self.running = false;
    }

    /// Whether the archival loop runs.
    pub fn is_running(&self) -> (r: bool)
        ensures
            r == self.running,
    {
        self.running
    }

    /// What the loop does on a tick: run an iteration while the scheduler
    /// runs, leave once it was stopped.
    pub fn on_tick(&self) -> (a: SchedulerAction)
        ensures
            a == (if self.running { SchedulerAction::RunIteration } else { SchedulerAction::Stop }),
    {
        if self.running { SchedulerAction::RunIteration } else { SchedulerAction::Stop }
    }

    /// The archive entry of a session archived by hand: kept for the
    /// configured retention, tagged `manual`, and marked as archived by the
    /// scheduler.
    pub fn manual_archive_entry(&self, session_id: String, session_data: String) -> (e: ArchiveEntry)
        ensures
            exists|v: u128| e.id@ == uuid_text(v),
            e.session_id == session_id,
            e.data == session_data,
            e.retention_days == self.config.retention_days,
            e.tags@.len() == 1 && e.tags@[0]@ == "manual"@,
            e.metadata@ == Map::<Seq<char>, Seq<char>>::empty().insert("archived_by"@, "\"archival_scheduler\""@),
    {
        ArchiveEntry::new(session_id, session_data, self.config.retention_days)
            .with_tag(String::from_str("manual"))
            .with_metadata(String::from_str("archived_by"), String::from_str("\"archival_scheduler\""))
    }

    /// The archive entries of a batch of sessions, given as pairs of
    /// identifier and data, in order: each kept for the configured
    /// retention and tagged `batch`.
    pub fn batch_archive_entries(&self, sessions: Vec<(String, String)>) -> (r: Vec<ArchiveEntry>)
        ensures
            r@.len() == sessions@.len(),
            forall|i: int| 0 <= i < r@.len() ==> {
                &&& (exists|v: u128| (#[trigger] r@[i]).id@ == uuid_text(v))
                &&& r@[i].session_id == sessions@[i].0
                &&& r@[i].data == sessions@[i].1
                &&& r@[i].retention_days == self.config.retention_days
                &&& r@[i].tags@.len() == 1 && r@[i].tags@[0]@ == "batch"@
                &&& r@[i].metadata@ == Map::<Seq<char>, Seq<char>>::empty()
            },
    {
        let ghost input = sessions@;
        let mut out: Vec<ArchiveEntry> = Vec::new();
        let n = sessions.len();
        let mut i: usize = 0;
        // popping from the reversed list walks the sessions from the front
        let mut queue = reversed(sessions);
        while i < n
            invariant
                n == input.len(),
                i <= n,
                queue@.len() == n - i,
                forall|j: int| 0 <= j < queue@.len() ==> queue@[j] == input[n - 1 - j],
                out@.len() == i,
                forall|k: int| 0 <= k < out@.len() ==> {
                    &&& (exists|v: u128| (#[trigger] out@[k]).id@ == uuid_text(v))
                    &&& out@[k].session_id == input[k].0
                    &&& out@[k].data == input[k].1
                    &&& out@[k].retention_days == self.config.retention_days
                    &&& out@[k].tags@.len() == 1 && out@[k].tags@[0]@ == "batch"@
                    &&& out@[k].metadata@ == Map::<Seq<char>, Seq<char>>::empty()
                },
            decreases n - i,
        {
            let (session_id, data) = queue.pop().unwrap();
            let e = ArchiveEntry::new(session_id, data, self.config.retention_days).with_tag(String::from_str("batch"));
            out.push(e);
            i = i + 1;
        }
        out
    }
}


/// How long each compliance level keeps data: a year for standard data,
/// three years for PCI-DSS, and seven years for HIPAA, GDPR and SOC 2,
/// counted in whole years of 365 days.
pub proof fn lemma_compliance_periods(level: ComplianceLevel)
    ensures
        compliance_days(level) > 0,
        compliance_days(level) % 365 == 0,
        level == ComplianceLevel::Standard <==> compliance_days(level) == 365,
        level == ComplianceLevel::Pci <==> compliance_days(level) == 3 * 365,
        (level == ComplianceLevel::Hipaa || level == ComplianceLevel::Gdpr || level == ComplianceLevel::Soc2)
            <==> compliance_days(level) == 7 * 365,
{
}

} // verus!
