//! The properties of X11 windows, as the X server answers requests for them.

use vstd::prelude::*;
use crate::text::decode_text;

verus! {

/// The answer to a request for a property.
pub enum PropertyReply<T> {
    /// The value of the property; there is none in the format that was asked
    /// for if it has another.
    Found(Option<T>),
    /// There is no answer, because the window is gone.
    Missing,
    /// The answer makes no sense.
    Malformed,
    /// The connection is broken.
    Failed,
}

/// The connection to the X server is broken.
#[derive(Debug, Clone, Copy, PartialEq, Eq, Structural)]
pub struct ConnectionFailed;

/// The value of a property, if it has one.
pub open spec fn value_of<T>(reply: PropertyReply<T>) -> Option<T> {
    match reply {
        PropertyReply::Found(value) => value,
        _ => None,
    }
}

/// A property that holds a text. One that is missing, malformed or no UTF-8
/// counts as not set; only a broken connection is an error.
pub fn fetch_string_property(reply: PropertyReply<Vec<u8>>) -> (result: Result<
    Option<String>,
    ConnectionFailed,
>)
    ensures
        result is Err <==> reply is Failed,
        result matches Ok(text) ==> match value_of(reply) {
            Some(bytes) => if vstd::utf8::valid_utf8(bytes@) {
                text is Some && text->0@ == vstd::utf8::decode_utf8(bytes@)
            } else {
                text is None
            },
            None => text is None,
        },
{
    match reply {
        PropertyReply::Found(Some(bytes)) => Ok(decode_text(bytes)),
        PropertyReply::Failed => Err(ConnectionFailed),
        _ => Ok(None),
    }
}

/// The input field of the hints of a window, where both are set.
pub fn fetch_hints(reply: PropertyReply<Option<bool>>) -> (result: Result<
    Option<bool>,
    ConnectionFailed,
>)
    ensures
        result is Err <==> reply is Failed,
        result matches Ok(input) ==> input == match value_of(reply) {
            Some(input) => input,
            None => None,
        },
{
    match reply {
        PropertyReply::Found(Some(input)) => Ok(input),
        PropertyReply::Failed => Err(ConnectionFailed),
        _ => Ok(None),
    }
}

/// The protocols that a window takes part in; none, if they are not set.
pub fn fetch_protocols(reply: PropertyReply<Vec<u32>>) -> (result: Result<
    Vec<u32>,
    ConnectionFailed,
>)
    ensures
        result is Err <==> reply is Failed,
        result matches Ok(protocols) ==> protocols@ == match value_of(reply) {
            Some(atoms) => atoms@,
            None => Seq::empty(),
        },
{
    match reply {
        PropertyReply::Found(Some(atoms)) => Ok(atoms),
        PropertyReply::Failed => Err(ConnectionFailed),
        _ => Ok(Vec::new()),
    }
}

} // verus!
