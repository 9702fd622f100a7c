use vstd::prelude::*;
use vstd::string::StringExecFns;
use crate::text::{str_eq, text_of};

verus! {

/// Something to write to the audit log.
pub struct AuditEvent {
    pub action: String,
    pub user: String,
    pub details: String,
}

/// Where audit entries go, and whether they are written at all.
pub struct AuditLogger {
    pub log_path: String,
    pub enabled: bool,
}

/// An audit log line: time stamp, action, user and details.
pub open spec fn audit_line(ts: Seq<char>, e: AuditEvent) -> Seq<char> {
    "["@ + ts + "] ACTION="@ + e.action@ + " USER="@ + e.user@ + " DETAILS="@ + e.details@ + "\n"@
}

impl AuditLogger {
    pub fn new(log_path: String, enabled: bool) -> (r: Self)
        ensures
            r.log_path == log_path,
            r.enabled == enabled,
    {
        AuditLogger { log_path, enabled }
    }

    /// The line to append for `event` at time `timestamp`; none when disabled.
    pub fn entry(&self, event: &AuditEvent, timestamp: &str) -> (r: Option<String>)
        ensures
            !self.enabled ==> r is None,
            self.enabled ==> r is Some && r->Some_0@ == audit_line(timestamp@, *event),
    {
        if !self.enabled {
            return None;
        }
        let line = text_of("[").concat(timestamp).concat("] ACTION=").concat(event.action.as_str()).concat(
            " USER=",
        ).concat(event.user.as_str()).concat(" DETAILS=").concat(event.details.as_str()).concat("\n");
        Some(line)
    }
}

/// A failed login, with the time (in seconds) at which it happened.
pub struct FailedLogin {
    pub timestamp: u64,
    pub username: String,
    pub ip_address: String,
}

/// A failed attempt still counts at time `now`: less than `window` seconds
/// have passed since it (none, if it lies in the future).
pub open spec fn still_counts(a: FailedLogin, now: u64, window: u64) -> bool {
    (if now >= a.timestamp { now - a.timestamp } else { 0 }) < window
}

/// The number of attempts of `s` by `user` from `ip`.
pub open spec fn attempts_by(s: Seq<FailedLogin>, user: Seq<char>, ip: Seq<char>) -> nat
    decreases s.len(),
{
    if s.len() == 0 {
        0
    } else {
        attempts_by(s.drop_last(), user, ip) + if s.last().username@ == user && s.last().ip_address@ == ip {
            1nat
        } else {
            0nat
        }
    }
}

/// Tracks failed logins and locks a user out of an address after too many
/// recent ones.
pub struct SecurityManager {
    pub audit_logger: AuditLogger,
    pub failed_attempts: Vec<FailedLogin>,
    pub lockout_threshold: usize,
    pub lockout_duration: u64,
}

impl SecurityManager {
    pub fn new(audit_log_path: String, lockout_threshold: usize, lockout_duration: u64) -> (r: Self)
        ensures
            r.audit_logger.log_path == audit_log_path,
            r.audit_logger.enabled,
            r.failed_attempts@.len() == 0,
            r.lockout_threshold == lockout_threshold,
            r.lockout_duration == lockout_duration,
    {
        SecurityManager {
            audit_logger: AuditLogger::new(audit_log_path, true),
            failed_attempts: Vec::new(),
            lockout_threshold,
            lockout_duration,
        }
    }

    /// Forgets the attempts that no longer count at `now`, then tells whether
    /// `username` at `ip` has at least the threshold of attempts left.
    pub fn is_locked_out(&mut self, username: &str, ip: &str, now: u64) -> (r: bool)
        ensures
            final(self).failed_attempts@ == old(self).failed_attempts@.filter(
                |a: FailedLogin| still_counts(a, now, old(self).lockout_duration),
            ),
            r == (attempts_by(final(self).failed_attempts@, username@, ip@) >= old(self).lockout_threshold),
            final(self).audit_logger == old(self).audit_logger,
            final(self).lockout_threshold == old(self).lockout_threshold,
            final(self).lockout_duration == old(self).lockout_duration,
    {
        let ghost pred = |a: FailedLogin| still_counts(a, now, self.lockout_duration);
        let mut kept: Vec<FailedLogin> = Vec::new();
        let mut count: usize = 0;
        let mut i: usize = 0;
        while i < self.failed_attempts.len()
            invariant
                i <= self.failed_attempts@.len(),
                self.failed_attempts@ == old(self).failed_attempts@,
                self.lockout_duration == old(self).lockout_duration,
                pred == (|a: FailedLogin| still_counts(a, now, self.lockout_duration)),
                kept@ == self.failed_attempts@.subrange(0, i as int).filter(pred),
                count as nat == attempts_by(kept@, username@, ip@),
                count <= kept@.len(),
                kept@.len() <= i,
            decreases self.failed_attempts@.len() - i,
        {
            let ghost before = kept@;
            let a = &self.failed_attempts[i];
            let elapsed: u64 = if now >= a.timestamp { now - a.timestamp } else { 0 };
            let keep = elapsed < self.lockout_duration;
            if keep {
                let copy = FailedLogin {
                    timestamp: a.timestamp,
                    username: a.username.clone(),
                    ip_address: a.ip_address.clone(),
                };
                if str_eq(copy.username.as_str(), username) && str_eq(copy.ip_address.as_str(), ip) {
                    count = count + 1;
                }
                kept.push(copy);
                assert(kept@.drop_last() =~= before);
            }
            proof {
                reveal(Seq::filter);
                let sub = self.failed_attempts@.subrange(0, i + 1);
                assert(sub.drop_last() =~= self.failed_attempts@.subrange(0, i as int));
                assert(pred(sub.last()) == keep);
            }
            i = i + 1;
        }
        assert(self.failed_attempts@.subrange(0, i as int) =~= self.failed_attempts@);
        self.failed_attempts = kept;
        count >= self.lockout_threshold
    }

    /// Records a failed login at `now`; gives the audit event to write.
    pub fn record_failed_attempt(&mut self, username: &str, ip: &str, now: u64) -> (r: AuditEvent)
        ensures
            final(self).failed_attempts@.len() == old(self).failed_attempts@.len() + 1,
            final(self).failed_attempts@.drop_last() == old(self).failed_attempts@,
            final(self).failed_attempts@.last().timestamp == now,
            final(self).failed_attempts@.last().username@ == username@,
            final(self).failed_attempts@.last().ip_address@ == ip@,
            final(self).audit_logger == old(self).audit_logger,
            final(self).lockout_threshold == old(self).lockout_threshold,
            final(self).lockout_duration == old(self).lockout_duration,
            r.action@ == "LOGIN_FAILED"@,
            r.user@ == username@,
            r.details@ == "IP: "@ + ip@,
    {
        self.failed_attempts.push(
            FailedLogin { timestamp: now, username: text_of(username), ip_address: text_of(ip) },
        );
        assert(self.failed_attempts@.drop_last() =~= old(self).failed_attempts@);
        AuditEvent {
            action: text_of("LOGIN_FAILED"),
            user: text_of(username),
            details: text_of("IP: ").concat(ip),
        }
    }

    /// The audit event of a successful login.
    pub fn record_success(&self, username: &str, ip: &str) -> (r: AuditEvent)
        ensures
            r.action@ == "LOGIN_SUCCESS"@,
            r.user@ == username@,
            r.details@ == "IP: "@ + ip@,
    {
        AuditEvent {
            action: text_of("LOGIN_SUCCESS"),
            user: text_of(username),
            details: text_of("IP: ").concat(ip),
        }
    }

    /// The audit event of an operation by a user.
    pub fn log_operation(&self, operation: &str, user: &str, details: &str) -> (r: AuditEvent)
        ensures
            r.action@ == operation@,
            r.user@ == user@,
            r.details@ == details@,
    {
        AuditEvent { action: text_of(operation), user: text_of(user), details: text_of(details) }
    }
}

/// Whether the process runs with root rights, and what it would need.
pub struct PermissionManager {
    pub required_capabilities: Vec<String>,
    pub running_as_root: bool,
}

/// Why a change of process identity failed.
#[derive(Debug, Clone, Copy, PartialEq, Eq, Structural)]
pub enum PermissionError {
    /// No user of the given name.
    UnknownUser,
    /// The system refused the change.
    Refused,
}

impl PermissionManager {
    /// The manager of a process running as user id `uid`.
    pub fn from_uid(uid: u32) -> (r: Self)
        ensures
            r.running_as_root == (uid == 0),
            r.required_capabilities@.len() == 2,
            r.required_capabilities@[0]@ == "CAP_DAC_READ_SEARCH"@,
            r.required_capabilities@[1]@ == "CAP_NET_RAW"@,
    {
        let mut caps: Vec<String> = Vec::new();
        caps.push(text_of("CAP_DAC_READ_SEARCH"));
        caps.push(text_of("CAP_NET_RAW"));
        PermissionManager { required_capabilities: caps, running_as_root: uid == 0 }
    }

    /// Capabilities are not inspected: this always succeeds.
    pub fn check_capabilities(&self) -> (r: Result<(), PermissionError>)
        ensures
            r is Ok,
    {
        Ok(())
    }

    pub fn is_privileged(&self) -> (r: bool)
        ensures
            r == self.running_as_root,
    {
        self.running_as_root
    }
}

} // verus!
