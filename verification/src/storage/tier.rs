//! Memory tiers and time-to-live.

use std::time::Duration;
use std::time::SystemTime;
use std::time::SystemTimeError;
use std::time::UNIX_EPOCH;
use vstd::prelude::*;
use vstd::string::StringExecFns;

verus! {

/// The storage class of a memory.
#[derive(Debug, Clone, Copy, PartialEq, Eq, Structural)]
pub enum MemoryTier {
    /// Short-term memory, which may expire.
    Episodic,
    /// Long-term memory, kept for good.
    Semantic,
}

impl Default for MemoryTier {
    fn default() -> (tier: Self)
        ensures
            tier == MemoryTier::Semantic,
    {
        MemoryTier::Semantic
    }
}

/// The name of a tier, in lower case.
pub open spec fn tier_name(tier: MemoryTier) -> Seq<char> {
    match tier {
        MemoryTier::Episodic => "episodic"@,
        MemoryTier::Semantic => "semantic"@,
    }
}

/// What `str::to_lowercase` makes of a text.
pub uninterp spec fn lowercased(text: Seq<char>) -> Seq<char>;

/// Calls `str::to_lowercase`.
#[verifier::external_body]
fn to_lowercase(text: &str) -> (lower: String)
    ensures
        lower@ == lowercased(text@),
{
    text.to_lowercase()
}

/// The tier that a lower-case name stands for, if any.
pub open spec fn tier_named(lower: Seq<char>) -> Option<MemoryTier> {
    if lower == "episodic"@ {
        Some(MemoryTier::Episodic)
    } else if lower == "semantic"@ {
        Some(MemoryTier::Semantic)
    } else {
        None
    }
}

impl MemoryTier {
    /// The tier's name in lower case, as it is written in stored records.
    pub fn name(&self) -> (text: String)
        ensures
            text@ == tier_name(*self),
    {
        match self {
            MemoryTier::Episodic => String::from_str("episodic"),
            MemoryTier::Semantic => String::from_str("semantic"),
        }
    }

    /// Reads a tier from its name once the name is in lower case.
    pub fn from_lowercase(lower: &str) -> (tier: Option<MemoryTier>)
        ensures
            tier == tier_named(lower@),
    {
        let lower = String::from_str(lower);
        if lower == String::from_str("episodic") {
            Some(MemoryTier::Episodic)
        } else if lower == String::from_str("semantic") {
            Some(MemoryTier::Semantic)
        } else {
            None
        }
    }

    /// Reads a tier from its name, whatever the case of its letters. Any
    /// other text is an error.
    pub fn from_str(s: &str) -> (parsed: Result<MemoryTier, String>)
        ensures
            parsed is Ok <==> tier_named(lowercased(s@)) is Some,
            parsed matches Ok(tier) ==> tier_named(lowercased(s@)) == Some(tier),
            parsed matches Err(message) ==> message@ == "Invalid memory tier: "@ + s@,
    {
        let lower = to_lowercase(s);
        match MemoryTier::from_lowercase(lower.as_str()) {
            Some(tier) => Ok(tier),
            None => {
                let mut message = String::from_str("Invalid memory tier: ");
                message.append(s);
                Err(message)
            },
        }
    }
}

/// How memories are assigned to tiers.
#[derive(Debug, Clone, PartialEq)]
pub struct TierConfig {
    /// Tier of a new memory when none is asked for.
    pub default_tier: MemoryTier,
    /// Lifetime of an episodic memory in seconds; `None` for no expiry.
    pub default_episodic_ttl_seconds: Option<u64>,
}

impl Default for TierConfig {
    fn default() -> (config: Self)
        ensures
            config.default_tier == MemoryTier::Semantic,
            config.default_episodic_ttl_seconds == Some(3600u64),
    {
        TierConfig { default_tier: MemoryTier::Semantic, default_episodic_ttl_seconds: Some(3600) }
    }
}

/// Whether a memory that expires at `expires_at` has expired at time `now`,
/// both in seconds since the epoch. A memory without expiry never has.
pub open spec fn expired_at(expires_at: Option<u64>, now: u64) -> bool {
    match expires_at {
        Some(at) => now >= at,
        None => false,
    }
}

/// Decides whether a memory has expired at time `now`.
pub fn is_expired_at(expires_at: Option<u64>, now: u64) -> (expired: bool)
    ensures
        expired == expired_at(expires_at, now),
{
    match expires_at {
        Some(at) => now >= at,
        None => false,
    }
}

/// The time at which a memory made at `now` and living for `seconds`
/// expires; the end of time when the sum passes it.
pub open spec fn expiration(now: u64, seconds: u64) -> u64 {
    if now + seconds > u64::MAX {
        u64::MAX
    } else {
        (now + seconds) as u64
    }
}

/// Computes the time at which a memory made at `now` and living for
/// `seconds` expires.
pub fn expiration_after(now: u64, seconds: u64) -> (at: u64)
    ensures
        at == expiration(now, seconds),
{
    if seconds > u64::MAX - now {
        u64::MAX
    } else {
        now + seconds
    }
}

#[verifier::external_type_specification]
#[verifier::external_body]
pub struct ExSystemTime(SystemTime);

#[verifier::external_type_specification]
#[verifier::external_body]
pub struct ExSystemTimeError(SystemTimeError);

/// Calls `SystemTime::now`: the reading of the system clock.
#[verifier::external_body]
fn system_now() -> (now: SystemTime) {
    SystemTime::now()
}

/// Calls `SystemTime::duration_since` with the Unix epoch: the time that
/// has passed since the epoch, or an error for a time before it.
#[verifier::external_body]
fn since_epoch(time: &SystemTime) -> (elapsed: Result<Duration, SystemTimeError>) {
    time.duration_since(UNIX_EPOCH)
}

/// Reads the system clock: whole seconds since the Unix epoch, and zero for
/// a clock set before it.
pub fn current_timestamp() -> (now: u64)
    ensures
        exists|reading: Result<Duration, SystemTimeError>| now == #[trigger] timestamp_of(reading),
{
    let time = system_now();
    let reading = since_epoch(&time);
    let now = timestamp_from(reading);
    assert(now == timestamp_of(reading));
    now
}

/// The timestamp that a reading of the clock against the epoch comes to:
/// the whole seconds that have passed since the epoch, and zero where the
/// clock stands before it.
pub open spec fn timestamp_of(reading: Result<Duration, SystemTimeError>) -> u64 {
    match reading {
        Ok(elapsed) => seconds_of(elapsed),
        Err(_) => 0,
    }
}

/// Turns a reading of the clock against the epoch into a timestamp.
pub fn timestamp_from(reading: Result<Duration, SystemTimeError>) -> (now: u64)
    ensures
        now == timestamp_of(reading),
{
    match reading {
        Ok(elapsed) => whole_seconds(&elapsed),
        Err(_) => 0,
    }
}

/// The whole seconds that a duration holds.
pub uninterp spec fn seconds_of(duration: Duration) -> u64;

/// Calls `Duration::as_secs`: the whole seconds of the duration.
#[verifier::external_body]
fn whole_seconds(duration: &Duration) -> (seconds: u64)
    ensures
        seconds == seconds_of(*duration),
{
    duration.as_secs()
}

/// The time at which a memory made now expires when it lives for
/// `duration`: the reading of the clock and the duration's whole seconds,
/// added up as `expiration` does.
pub fn duration_to_expiration(duration: Duration) -> (at: u64)
    ensures
        exists|now: u64| at == expiration(now, seconds_of(duration)),
        at >= seconds_of(duration),
{
    let now = current_timestamp();
    let at = expiration_after(now, whole_seconds(&duration));
    assert(at == expiration(now, seconds_of(duration)));
    at
}

/// Whether a memory that expires at `expires_at` has expired by now. A
/// memory without expiry never has.
pub fn is_expired(expires_at: Option<u64>) -> (expired: bool)
    ensures
        expires_at is None ==> !expired,
        expires_at == Some(0u64) ==> expired,
{
    is_expired_at(expires_at, current_timestamp())
}

} // verus!
