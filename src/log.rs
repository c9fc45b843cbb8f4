use vstd::prelude::*;

verus! {

/// The line logged at debug level for `message`.
pub open spec fn debug_line(message: Seq<char>) -> Seq<char> {
    "DEBUG============== -> "@ + message
}

/// The line logged at info level for `message`.
pub open spec fn info_line(message: Seq<char>) -> Seq<char> {
    "INFO============== -> "@ + message
}

/// The line logged at error level for `message`.
pub open spec fn error_line(message: Seq<char>) -> Seq<char> {
    "ERROR============== -> "@ + message
}

/// The debug log line for `message`; the caller hands it to the logger.
pub fn write_debug_log(message: String) -> (r: String)
    ensures
        r@ == debug_line(message@),
{
    let mut line = String::from_str("DEBUG============== -> ");
    line.append(message.as_str());
    line
}

/// The info log line for `message`; the caller hands it to the logger.
pub fn write_info_log(message: String) -> (r: String)
    ensures
        r@ == info_line(message@),
{
    let mut line = String::from_str("INFO============== -> ");
    line.append(message.as_str());
    line
}

/// The error log line for `message`; the caller hands it to the logger.
pub fn write_error_log(message: String) -> (r: String)
    ensures
        r@ == error_line(message@),
{
    let mut line = String::from_str("ERROR============== -> ");
    line.append(message.as_str());
    line
}

} // verus!
