//! The boolean of the instrument's command language and its textual forms.

use crate::text::{debug_quote, debug_text, string_from_utf8, utf8_error_text};
use vstd::prelude::*;
use vstd::string::*;
use vstd::utf8::*;

verus! {

/// The long form of a boolean, as the instrument displays it.
pub open spec fn display_form(value: bool) -> Seq<char> {
    if value {
        "ON"@
    } else {
        "OFF"@
    }
}

/// The one-digit form of a boolean, as set commands carry it.
pub open spec fn digit_form(value: bool) -> Seq<char> {
    if value {
        "1"@
    } else {
        "0"@
    }
}

/// Whether a text reads as true: `1`, or `on` in any mix of cases.
pub open spec fn spells_true(s: Seq<char>) -> bool {
    ||| (s.len() == 1 && s[0] == '1')
    ||| (s.len() == 2 && (s[0] == 'o' || s[0] == 'O') && (s[1] == 'n' || s[1] == 'N'))
}

/// Whether a text reads as false: `0`, or `off` in any mix of cases.
pub open spec fn spells_false(s: Seq<char>) -> bool {
    ||| (s.len() == 1 && s[0] == '0')
    ||| (s.len() == 3 && (s[0] == 'o' || s[0] == 'O') && (s[1] == 'f' || s[1] == 'F') && (s[2]
        == 'f' || s[2] == 'F'))
}

/// The boolean that a text stands for, if it stands for one.
pub open spec fn decoded(s: Seq<char>) -> Option<bool> {
    if spells_true(s) {
        Some(true)
    } else if spells_false(s) {
        Some(false)
    } else {
        None
    }
}

/// The message that reports a payload which is no boolean; `shown` is the
/// payload as the message shows it.
pub open spec fn invalid_boolean_text(shown: Seq<char>) -> Seq<char> {
    "Invalid boolean value: "@ + shown
}

/// What decoding a text gives: the boolean, or the message of the failure.
pub open spec fn decoded_text(s: Seq<char>) -> Result<bool, Seq<char>> {
    match decoded(s) {
        Some(b) => Ok(b),
        None => Err(invalid_boolean_text(debug_text(s))),
    }
}

/// What decoding raw bytes gives: they must be UTF-8 and then spell a boolean.
pub open spec fn decoded_bytes(bytes: Seq<u8>) -> Result<bool, Seq<char>> {
    if valid_utf8(bytes) {
        decoded_text(decode_utf8(bytes))
    } else {
        Err(invalid_boolean_text(utf8_error_text(bytes)))
    }
}

/// SCPI Boolean type
pub struct ScpiBoolean {
    /// Internal representation of the boolean value
    value: bool,
}

impl View for ScpiBoolean {
    type V = bool;

    closed spec fn view(&self) -> bool {
        self.value
    }
}

/// Builds the message for a payload that is no boolean from the payload as it
/// is to be shown.
pub fn invalid_boolean_message(shown: &str) -> (message: String)
    ensures
        message@ == invalid_boolean_text(shown@),
{
    let mut message = "Invalid boolean value: ".to_owned();
    message.append(shown);
    message
}

impl ScpiBoolean {
    /// Create a new ScpiBoolean from a bool
    pub fn new(value: bool) -> (b: Self)
        ensures
            b@ == value,
    {
        Self { value }
    }

    /// Create a new ScpiBoolean from a string
    ///
    /// Accepts `on`, `off` in any mix of upper and lower case, and `1`, `0`.
    pub fn from_str_case_insensitive(s: &str) -> (r: Result<Self, String>)
        ensures
            match decoded_text(s@) {
                Ok(b) => r matches Ok(v) && v@ == b,
                Err(message) => r matches Err(m) && m@ == message,
            },
    {
        if s.is_ascii() {
            let bytes = s.as_bytes();
            proof {
                is_ascii_spec_bytes(s);
            }
            let n = bytes.len();
            if n == 1 {
                if bytes[0] == 0x31 {
                    return Ok(Self::new(true));
                } else if bytes[0] == 0x30 {
                    return Ok(Self::new(false));
                }
            } else if n == 2 {
                if (bytes[0] == 0x6f || bytes[0] == 0x4f) && (bytes[1] == 0x6e || bytes[1]
                    == 0x4e) {
                    return Ok(Self::new(true));
                }
            } else if n == 3 {
                if (bytes[0] == 0x6f || bytes[0] == 0x4f) && (bytes[1] == 0x66 || bytes[1]
                    == 0x46) && (bytes[2] == 0x66 || bytes[2] == 0x46) {
                    return Ok(Self::new(false));
                }
            }
        }
        let shown = debug_quote(s);
        Err(invalid_boolean_message(shown.as_str()))
    }

    /// Create a new ScpiBoolean from a vector of u8
    pub fn from_vec_ascii(v: &Vec<u8>) -> (r: Result<Self, String>)
        ensures
            match decoded_bytes(v@) {
                Ok(b) => r matches Ok(v) && v@ == b,
                Err(message) => r matches Err(m) && m@ == message,
            },
    {
        match string_from_utf8(v.clone()) {
            Ok(s) => Self::from_str_case_insensitive(s.as_str()),
            Err(e) => Err(invalid_boolean_message(e.as_str())),
        }
    }

    /// Get the value of the ScpiBoolean
    pub fn value(&self) -> (value: bool)
        ensures
            value == self@,
    {
        self.value
    }

    /// Get the string representation of the Boolean
    pub fn to_str(&self) -> (s: &'static str)
        ensures
            s@ == display_form(self@),
    {
        match self.value {
            true => "ON",
            false => "OFF",
        }
    }

    /// Get the one-digit representation of the Boolean
    pub fn to_digital_str(&self) -> (s: &'static str)
        ensures
            s@ == digit_form(self@),
    {
        match self.value {
            true => "1",
            false => "0",
        }
    }
}

/// Decoding gives back the boolean that was encoded, from the long form and
/// from the one-digit form, as text and as the bytes that carry the text.
pub proof fn lemma_decode_inverts_encode(value: bool)
    ensures
        decoded_text(display_form(value)) == Ok::<bool, Seq<char>>(value),
        decoded_text(digit_form(value)) == Ok::<bool, Seq<char>>(value),
        decoded_bytes(encode_utf8(display_form(value))) == Ok::<bool, Seq<char>>(value),
        decoded_bytes(encode_utf8(digit_form(value))) == Ok::<bool, Seq<char>>(value),
{
    reveal_strlit("ON");
    reveal_strlit("OFF");
    reveal_strlit("1");
    reveal_strlit("0");
    encode_utf8_valid_utf8(display_form(value));
    encode_utf8_valid_utf8(digit_form(value));
    encode_utf8_decode_utf8(display_form(value));
    encode_utf8_decode_utf8(digit_form(value));
}

/// Implicit conversion from bool to ScpiBoolean
impl From<bool> for ScpiBoolean {
    fn from(b: bool) -> (converted: Self)
        ensures
            converted@ == b,
    {
        Self { value: b }
    }
}

impl vstd::std_specs::convert::FromSpecImpl<bool> for ScpiBoolean {
    open spec fn obeys_from_spec() -> bool {
        true
    }

    closed spec fn from_spec(b: bool) -> Self {
        ScpiBoolean { value: b }
    }
}

/// Implicit conversion from ScpiBoolean to bool
impl From<ScpiBoolean> for bool {
    fn from(b: ScpiBoolean) -> (converted: bool)
        ensures
            converted == b@,
    {
        b.value
    }
}

impl vstd::std_specs::convert::FromSpecImpl<ScpiBoolean> for bool {
    open spec fn obeys_from_spec() -> bool {
        true
    }

    open spec fn from_spec(b: ScpiBoolean) -> bool {
        b@
    }
}

/// Explicit conversion from &str to ScpiBoolean
impl core::str::FromStr for ScpiBoolean {
    type Err = String;

    fn from_str(s: &str) -> (r: Result<Self, Self::Err>)
        ensures
            match decoded_text(s@) {
                Ok(b) => r matches Ok(v) && v@ == b,
                Err(message) => r matches Err(m) && m@ == message,
            },
    {
        ScpiBoolean::from_str_case_insensitive(s)
    }
}

} // verus!
