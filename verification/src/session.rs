//! What a device session decides when it tests a code through the external
//! unlock tool: whether the code may be sent at all, which command line
//! carries it, and what the tool's output means.

use vstd::prelude::*;
use vstd::string::*;

use crate::formula::{is_code, CODE_LEN};
use crate::numeral::is_digit;
use crate::text::{chars_of, contains, text_contains};

verus! {

/// The command line of the unlock tool, up to the code.
pub const UNLOCK_VERB: &'static str = "fastboot oem unlock ";

/// The command line that lists the attached devices.
pub const LISTING_COMMAND: &'static str = "fastboot devices";

/// The word by which a device shows in the listing.
pub const PRESENCE_TOKEN: &'static str = "fastboot";

/// The command line that brings a lost device back to its bootloader.
pub const RECOVERY_COMMAND: &'static str = "adb reboot bootloader";

/// The word in the tool's output that reports an accepted command.
pub const SUCCESS_TOKEN: &'static str = "OKAY";

/// The word in the tool's output that reports a completed run.
pub const COMPLETION_TOKEN: &'static str = "Finished";

/// What came of testing one candidate.
#[derive(Clone, Copy, Debug, PartialEq, Eq, Structural)]
pub enum TestOutcome {
    /// The device took the code.
    Unlocked,
    /// The device answered and did not take the code.
    Rejected,
    /// The code was not sixteen digits and was never sent.
    Malformed,
    /// The transport failed before an answer was read.
    TransportError,
}

/// Decides from the output of the unlock tool whether the device took the
/// code: the output has to hold both tokens.
#[derive(Debug)]
pub struct SuccessPredicate {
    /// Reports an accepted command.
    pub success_token: String,
    /// Reports a completed run.
    pub completion_token: String,
}

/// Whether `code` is a candidate code: exactly sixteen decimal digits.
pub fn is_valid_code(code: &str) -> (valid: bool)
    ensures
        valid == is_code(code@),
{
    let chars = chars_of(code);
    if chars.len() != CODE_LEN {
        return false;
    }
    let mut i: usize = 0;
    while i < chars.len()
        invariant
            i <= chars.len(),
            chars@ == code@,
            forall|k: int| 0 <= k < i ==> is_digit(#[trigger] code@[k]),
        decreases chars.len() - i,
    {
        let c = chars[i];
        if !(c >= '0' && c <= '9') {
            assert(!is_digit(code@[i as int]));
            return false;
        }
        i = i + 1;
    }
    true
}

/// The command line that tests `code`: the unlock verb, then the code.
pub fn unlock_command(code: &str) -> (command: String)
    ensures
        command@ == UNLOCK_VERB@ + code@,
{
    let mut command = String::from_str(UNLOCK_VERB);
    command.append(code);
    command
}

/// The command line to run for `code`, or `None` where `code` is no
/// candidate code and nothing is to be run for it.
pub fn test_request(code: &str) -> (request: Option<String>)
    ensures
        match request {
            Some(command) => is_code(code@) && command@ == UNLOCK_VERB@ + code@,
            None => !is_code(code@),
        },
{
    if is_valid_code(code) {
        Some(unlock_command(code))
    } else {
        None
    }
}

/// Whether the listing of attached devices shows a device.
pub fn listing_shows_device(listing: &str) -> (present: bool)
    ensures
        present == contains(listing@, PRESENCE_TOKEN@),
{
    text_contains(listing, PRESENCE_TOKEN)
}

impl SuccessPredicate {
    /// Whether `output` reports success: it holds the success token and the
    /// completion token.
    pub open spec fn accepts(&self, output: Seq<char>) -> bool {
        contains(output, self.success_token@) && contains(output, self.completion_token@)
    }

    /// A predicate with the two tokens given.
    pub fn new(success_token: &str, completion_token: &str) -> (predicate: Self)
        ensures
            predicate.success_token@ == success_token@,
            predicate.completion_token@ == completion_token@,
    {
        SuccessPredicate {
            success_token: String::from_str(success_token),
            completion_token: String::from_str(completion_token),
        }
    }

    /// The predicate for the output of the fastboot tool.
    pub fn fastboot() -> (predicate: Self)
        ensures
            predicate.success_token@ == SUCCESS_TOKEN@,
            predicate.completion_token@ == COMPLETION_TOKEN@,
    {
        SuccessPredicate::new(SUCCESS_TOKEN, COMPLETION_TOKEN)
    }

    /// Whether `output` reports success.
    pub fn matches(&self, output: &str) -> (success: bool)
        ensures
            success == self.accepts(output@),
    {
        text_contains(output, self.success_token.as_str()) && text_contains(
            output,
            self.completion_token.as_str(),
        )
    }

    /// The outcome of a test whose tool ran and printed `stdout` and
    /// `stderr`: the two are read as one text, standard output first.
    pub fn judge(&self, stdout: &str, stderr: &str) -> (outcome: TestOutcome)
        ensures
            outcome == if self.accepts(stdout@ + stderr@) {
                TestOutcome::Unlocked
            } else {
                TestOutcome::Rejected
            },
    {
        let mut output = String::from_str(stdout);
        output.append(stderr);
        if self.matches(output.as_str()) {
            TestOutcome::Unlocked
        } else {
            TestOutcome::Rejected
        }
    }
}

} // verus!
