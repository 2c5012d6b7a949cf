//! Keeping tasks in a database.

use crate::errors::{AgentError, ErrorView};
use crate::text::{concat4, contains, occurs_in};
use vstd::prelude::*;

verus! {

/// How many connections to a database on disk there are at most.
pub const DEFAULT_MAX_CONNECTIONS: u32 = 4;

/// How many connections to a database in memory there are: each would see another database.
pub const IN_MEMORY_MAX_CONNECTIONS: u32 = 1;

/// The address of a database in memory.
pub open spec fn in_memory_url(url: Seq<char>) -> bool {
    occurs_in(url, ":memory:"@) || occurs_in(url, "mode=memory"@)
}

/// Tells whether an address is that of a database in memory.
pub fn is_in_memory_url(database_url: &str) -> (r: bool)
    ensures
        r == in_memory_url(database_url@),
{
    contains(database_url, ":memory:") || contains(database_url, "mode=memory")
}

/// How many connections to the database at an address there are at most.
pub fn max_connections(database_url: &str) -> (r: u32)
    ensures
        r == if in_memory_url(database_url@) {
            IN_MEMORY_MAX_CONNECTIONS
        } else {
            DEFAULT_MAX_CONNECTIONS
        },
{
    if is_in_memory_url(database_url) {
        IN_MEMORY_MAX_CONNECTIONS
    } else {
        DEFAULT_MAX_CONNECTIONS
    }
}

/// The error for a value that could not be written as JSON.
pub open spec fn write_error(label: Seq<char>, error: Seq<char>) -> ErrorView {
    ErrorView::Serialization {
        format: "json"@,
        reason: "Failed to serialize "@ + label + ": "@ + error,
    }
}

/// The error for a value that could not be read from JSON.
pub open spec fn read_error(label: Seq<char>, error: Seq<char>) -> ErrorView {
    ErrorView::Serialization {
        format: "json"@,
        reason: "Failed to deserialize "@ + label + ": "@ + error,
    }
}

/// The JSON text of a value. `text` is what writing it gave.
pub fn serialize_json(text: Result<String, String>, label: &str) -> (r: Result<String, AgentError>)
    ensures
        match text {
            Ok(s) => r == Ok::<String, AgentError>(s),
            Err(m) => r matches Err(e) && e@ == write_error(label@, m@),
        },
{
    match text {
        Ok(s) => Ok(s),
        Err(m) => Err(
            AgentError::Serialization {
                format: "json".to_owned(),
                reason: concat4("Failed to serialize ", label, ": ", m.as_str()),
            },
        ),
    }
}

/// The value that a JSON text stands for. `value` is what reading it gave.
pub fn deserialize_json<T>(value: Result<T, String>, label: &str) -> (r: Result<T, AgentError>)
    ensures
        match value {
            Ok(v) => r == Ok::<T, AgentError>(v),
            Err(m) => r matches Err(e) && e@ == read_error(label@, m@),
        },
{
    match value {
        Ok(v) => Ok(v),
        Err(m) => Err(
            AgentError::Serialization {
                format: "json".to_owned(),
                reason: concat4("Failed to deserialize ", label, ": ", m.as_str()),
            },
        ),
    }
}

// ---------------------------------------------------------------------------
// Laws
// ---------------------------------------------------------------------------

/// An address that says anywhere that the database is in memory is that of one in memory, to
/// which there is one connection; to any other there are four.
pub proof fn addresses_say_where_the_database_is(before: Seq<char>, after: Seq<char>, url: Seq<char>)
    ensures
        in_memory_url(before + ":memory:"@ + after),
        in_memory_url(before + "mode=memory"@ + after),
        in_memory_url(url) ==> occurs_in(url, ":memory:"@) || occurs_in(url, "mode=memory"@),
        IN_MEMORY_MAX_CONNECTIONS == 1,
        DEFAULT_MAX_CONNECTIONS == 4,
{
    crate::text::texts_stand_where_they_are_put(before, ":memory:"@, after);
    crate::text::texts_stand_where_they_are_put(before, "mode=memory"@, after);
}

/// What could not be written or read is named, with the reason.
pub proof fn failures_name_what_failed(label: Seq<char>, reason: Seq<char>)
    ensures
        write_error(label, reason).text() == "Serialization error in json: Failed to serialize "@
            + label + ": "@ + reason,
        read_error(label, reason).text() == "Serialization error in json: Failed to deserialize "@
            + label + ": "@ + reason,
{
    reveal_strlit("Serialization error in json: Failed to serialize ");
    reveal_strlit("Serialization error in json: Failed to deserialize ");
    reveal_strlit("Serialization error in ");
    reveal_strlit("json");
    reveal_strlit(": ");
    reveal_strlit("Failed to serialize ");
    reveal_strlit("Failed to deserialize ");
    let a = "Serialization error in "@ + "json"@ + ": "@ + "Failed to serialize "@;
    let b = "Serialization error in "@ + "json"@ + ": "@ + "Failed to deserialize "@;
    assert(a =~= "Serialization error in json: Failed to serialize "@);
    assert(b =~= "Serialization error in json: Failed to deserialize "@);
    assert(write_error(label, reason).text() =~= a + label + ": "@ + reason);
    assert(read_error(label, reason).text() =~= b + label + ": "@ + reason);
}

} // verus!
