//! The text of commands: a parameter path, followed by `?` to ask for the
//! value or by a space and the value to set it.

use crate::text::{decimal_text, push_decimal};
use vstd::prelude::*;
use vstd::string::*;

verus! {

/// The parameters that every channel has.
#[derive(Clone, Copy, Debug, PartialEq, Eq, Structural)]
pub enum ChannelField {
    BwLimit,
    Display,
    Invert,
    Vernier,
    Offset,
    Scale,
    Coupling,
    Probe,
}

impl ChannelField {
    /// The keyword of the field in a command path.
    pub open spec fn keyword_text(self) -> Seq<char> {
        match self {
            ChannelField::BwLimit => "BWLimit"@,
            ChannelField::Display => "DISPlay"@,
            ChannelField::Invert => "INVert"@,
            ChannelField::Vernier => "VERNier"@,
            ChannelField::Offset => "OFFSet"@,
            ChannelField::Scale => "SCALe"@,
            ChannelField::Coupling => "COUPling"@,
            ChannelField::Probe => "PROBe"@,
        }
    }

    /// The keyword of the field in a command path.
    pub fn keyword(self) -> (keyword: &'static str)
        ensures
            keyword@ == self.keyword_text(),
    {
        match self {
            ChannelField::BwLimit => "BWLimit",
            ChannelField::Display => "DISPlay",
            ChannelField::Invert => "INVert",
            ChannelField::Vernier => "VERNier",
            ChannelField::Offset => "OFFSet",
            ChannelField::Scale => "SCALe",
            ChannelField::Coupling => "COUPling",
            ChannelField::Probe => "PROBe",
        }
    }
}

/// The path of a field of a channel: `CHANnel`, the channel's number, a
/// colon and the field's keyword.
pub open spec fn channel_path_text(channel_id: nat, field: ChannelField) -> Seq<char> {
    "CHANnel"@ + decimal_text(channel_id) + ":"@ + field.keyword_text()
}

/// The query for the parameter at `path`.
pub open spec fn query_text(path: Seq<char>) -> Seq<char> {
    path + "?"@
}

/// The command that sets the parameter at `path` to `value`.
pub open spec fn set_text(path: Seq<char>, value: Seq<char>) -> Seq<char> {
    path + " "@ + value
}

/// Builds the path of a field of a channel.
pub fn channel_path(channel_id: usize, field: ChannelField) -> (path: String)
    ensures
        path@ == channel_path_text(channel_id as nat, field),
{
    let mut path = "CHANnel".to_owned();
    push_decimal(&mut path, channel_id);
    path.append(":");
    path.append(field.keyword());
    path
}

/// Builds the query for the parameter at `path`.
pub fn query_command(path: &str) -> (command: String)
    ensures
        command@ == query_text(path@),
{
    let mut command = path.to_owned();
    command.append("?");
    command
}

/// Builds the command that sets the parameter at `path` to `value`.
pub fn set_command(path: &str, value: &str) -> (command: String)
    ensures
        command@ == set_text(path@, value@),
{
    let mut command = path.to_owned();
    command.append(" ");
    command.append(value);
    command
}

} // verus!
