//! Log records for the platform's log.

use crate::text::chars_of;
use vstd::prelude::*;

verus! {

/// Priority of an informational record.
pub const ANDROID_LOG_INFO: i32 = 4;

/// Priority of an error record.
pub const ANDROID_LOG_ERROR: i32 = 6;

/// The tag that every record carries.
pub open spec fn log_tag() -> Seq<char> {
    "SayboardParakeetRs"@
}

/// A record that is ready to be written: its text can be handed to an interface
/// that ends strings with a NUL.
#[derive(Debug)]
pub struct LogRecord {
    pub priority: i32,
    pub tag: String,
    pub text: String,
}

/// `message` with a space in place of every NUL.
pub open spec fn without_nul(message: Seq<char>) -> Seq<char> {
    Seq::new(
        message.len(),
        |i: int| if message[i] == '\0' {
            ' '
        } else {
            message[i]
        },
    )
}

impl LogRecord {
    /// The record of `message` with that priority.
    pub open spec fn records(self, priority: i32, message: Seq<char>) -> bool {
        &&& self.priority == priority
        &&& self.tag@ == log_tag()
        &&& self.text@ == without_nul(message)
    }
}

/// Builds the record of `message` with that priority.
pub fn log_with_priority(priority: i32, message: &str) -> (r: LogRecord)
    ensures
        r.records(priority, message@),
{
    let chars = chars_of(message);
    let mut text = String::new();
    let mut i: usize = 0;
    while i < chars.len()
        invariant
            i <= chars@.len(),
            text@ == without_nul(chars@).take(i as int),
        decreases chars@.len() - i,
    {
        if chars[i] == '\0' {
            text.push(' ');
        } else {
            text.push(chars[i]);
        }
        assert(text@ =~= without_nul(chars@).take(i + 1));
        i += 1;
    }
    assert(without_nul(chars@).take(i as int) =~= without_nul(chars@));
    LogRecord { priority, tag: "SayboardParakeetRs".to_owned(), text }
}

/// The informational record of `message`.
pub fn info(message: &str) -> (r: LogRecord)
    ensures
        r.records(ANDROID_LOG_INFO, message@),
{
    log_with_priority(ANDROID_LOG_INFO, message)
}

/// The error record of `message`.
pub fn error(message: &str) -> (r: LogRecord)
    ensures
        r.records(ANDROID_LOG_ERROR, message@),
{
    log_with_priority(ANDROID_LOG_ERROR, message)
}

/// The text of a record never holds a NUL, whatever the message.
pub proof fn record_text_holds_no_nul(r: LogRecord, priority: i32, message: Seq<char>)
    requires
        r.records(priority, message),
    ensures
        !r.text@.contains('\0'),
        r.text@.len() == message.len(),
{
}

/// A record carries its priority and the tag, and its text is the message, character by
/// character, with a space for every NUL. Information has priority 4 and errors have 6.
pub proof fn records_carry_their_message(
    priority: i32,
    message: &str,
    r: LogRecord,
    informed: LogRecord,
    failed: LogRecord,
)
    requires
        call_ensures(log_with_priority, (priority, message), r),
        call_ensures(info, (message,), informed),
        call_ensures(error, (message,), failed),
    ensures
        r.priority == priority,
        r.tag@ == "SayboardParakeetRs"@,
        r.text@.len() == message@.len(),
        forall|i: int|
            0 <= i < message@.len() ==> #[trigger] r.text@[i] == (if message@[i] == '\0' {
                ' '
            } else {
                message@[i]
            }),
        informed.priority == 4 && informed.tag@ == r.tag@ && informed.text@ == r.text@,
        failed.priority == 6 && failed.tag@ == r.tag@ && failed.text@ == r.text@,
{
}

} // verus!
