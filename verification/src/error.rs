//! Errors surfaced by the enforcement engine, and the exact text each one
//! renders to for logs and user-facing reports.

use vstd::prelude::*;

verus! {

/// Errors that can occur during enforcement operations.
#[derive(Debug, Clone)]
pub enum EnforcementError {
    /// Invalid state transition attempted
    InvalidStateTransition,
    /// Enforcement record not found
    NotFound(String),
    /// Platform API error, wrapped opaquely as its rendered text
    DiscordApi(String),
    /// Failed to get guild or member
    GuildOrMemberNotFound(String),
    /// Action validation failed
    ValidationFailed(String),
    /// User not in voice channel
    NotInVoiceChannel,
    /// No voice channels in guild
    NoVoiceChannels(u64),
    /// Generic error
    Other(String),
}

/// Result type for enforcement operations.
pub type EnforcementResult<T> = Result<T, EnforcementError>;

impl From<String> for EnforcementError {
    /// A bare message becomes the generic error.
    fn from(message: String) -> (r: Self) {
        Self::Other(message)
    }
}

impl vstd::std_specs::convert::FromSpecImpl<String> for EnforcementError {
    open spec fn obeys_from_spec() -> bool {
        true
    }

    open spec fn from_spec(message: String) -> Self {
        Self::Other(message)
    }
}

/// The decimal rendering of a natural number, most significant digit first.
pub open spec fn spec_decimal(n: nat) -> Seq<char>
    decreases n,
{
    if n < 10 {
        seq![spec_decimal_digit(n)]
    } else {
        spec_decimal(n / 10) + seq![spec_decimal_digit(n % 10)]
    }
}

/// The character for one decimal digit.
pub open spec fn spec_decimal_digit(d: nat) -> char {
    if d == 0 {
        '0'
    } else if d == 1 {
        '1'
    } else if d == 2 {
        '2'
    } else if d == 3 {
        '3'
    } else if d == 4 {
        '4'
    } else if d == 5 {
        '5'
    } else if d == 6 {
        '6'
    } else if d == 7 {
        '7'
    } else if d == 8 {
        '8'
    } else {
        '9'
    }
}

/// One decimal digit as a string slice.
fn decimal_digit_str(d: u64) -> (s: &'static str)
    requires
        d < 10,
    ensures
        s@ == seq![spec_decimal_digit(d as nat)],
{
    proof {
        reveal_strlit("0");
        reveal_strlit("1");
        reveal_strlit("2");
        reveal_strlit("3");
        reveal_strlit("4");
        reveal_strlit("5");
        reveal_strlit("6");
        reveal_strlit("7");
        reveal_strlit("8");
        reveal_strlit("9");
    }
    match d {
        0 => "0",
        1 => "1",
        2 => "2",
        3 => "3",
        4 => "4",
        5 => "5",
        6 => "6",
        7 => "7",
        8 => "8",
        _ => "9",
    }
}

/// Render a number in decimal.
pub fn u64_to_decimal(n: u64) -> (s: String)
    ensures
        s@ == spec_decimal(n as nat),
    decreases n,
{
    if n < 10 {
        String::from_str(decimal_digit_str(n))
    } else {
        proof {
            assert(n / 10 < n) by (nonlinear_arith)
                requires
                    n >= 10,
            ;
        }
        let prefix = u64_to_decimal(n / 10);
        prefix.concat(decimal_digit_str(n % 10))
    }
}

impl EnforcementError {
    /// The text this error renders to.
    pub open spec fn spec_message(self) -> Seq<char> {
        match self {
            Self::InvalidStateTransition => "Invalid state transition"@,
            Self::NotFound(id) => "Enforcement not found: "@ + id@,
            Self::DiscordApi(e) => "Discord API error: "@ + e@,
            Self::GuildOrMemberNotFound(m) => "Failed to get guild or member: "@ + m@,
            Self::ValidationFailed(m) => "Action validation failed: "@ + m@,
            Self::NotInVoiceChannel => "User not in voice channel"@,
            Self::NoVoiceChannels(gid) => "No voice channels in guild: "@ + spec_decimal(
                gid as nat,
            ),
            Self::Other(m) => "Enforcement error: "@ + m@,
        }
    }

    /// Render this error as text.
    pub fn message(&self) -> (r: String)
        ensures
            r@ == self.spec_message(),
    {
        match self {
            Self::InvalidStateTransition => String::from_str("Invalid state transition"),
            Self::NotFound(id) => String::from_str("Enforcement not found: ").concat(id.as_str()),
            Self::DiscordApi(e) => String::from_str("Discord API error: ").concat(e.as_str()),
            Self::GuildOrMemberNotFound(m) => String::from_str(
                "Failed to get guild or member: ",
            ).concat(m.as_str()),
            Self::ValidationFailed(m) => String::from_str("Action validation failed: ").concat(
                m.as_str(),
            ),
            Self::NotInVoiceChannel => String::from_str("User not in voice channel"),
            Self::NoVoiceChannels(gid) => String::from_str("No voice channels in guild: ").concat(
                u64_to_decimal(*gid).as_str(),
            ),
            Self::Other(m) => String::from_str("Enforcement error: ").concat(m.as_str()),
        }
    }
}

} // verus!
