use vstd::prelude::*;

use rand::Rng;

verus! {

/// Number of fixed-point units in one whole unit (of length, or of a degree).
pub const UNIT: i64 = 1_000_000;

/// A Cartesian location, each coordinate in millionths of the length unit.
#[derive(Clone, Copy, Debug, PartialEq, Eq, Structural)]
pub struct Point {
    pub x: i64,
    pub y: i64,
    pub z: i64,
}

/// A joint-space pose, each angle in millionths of a degree.
///
/// The beam angle is measured relative to the column, the base angle turns the
/// whole assembly about the vertical axis.
#[derive(Clone, Copy, Debug, PartialEq, Eq, Structural)]
pub struct AngleSet {
    pub column_angle: i64,
    pub beam_angle: i64,
    pub base_angle: i64,
}

/// A value drawn at random from `low .. high`, by `gen_range` on the thread's
/// generator of the `rand` crate. All that is claimed is that the value lies
/// in the range; `gen_range` panics on an empty range, which `requires` leaves
/// out. The generator is seeded by the system when a thread first asks for it.
#[verifier::external_body]
pub(crate) fn random_between(low: i64, high: i64) -> (value: i64)
    requires
        low < high,
    ensures
        low <= value < high,
{
    rand::thread_rng().gen_range(low..high)
}

/// Helpers that belong to no one component.
#[derive(Clone, Copy, Debug, PartialEq, Eq, Structural)]
pub struct Utils;

impl Utils {
    /// The line that reports that a file was written to `path`.
    pub fn saved_message(path: &str) -> (message: String)
        ensures
            message@ == "successfully saved to "@ + path@,
    {
        let mut message: String = "successfully saved to ".to_owned();
        push_text(&mut message, path);
        message
    }
}

/// Appends `text` to `out`, by `String::push_str`, which std documents to
/// append the slice at the end of the string.
#[verifier::external_body]
pub(crate) fn push_text(out: &mut String, text: &str)
    ensures
        final(out)@ == old(out)@ + text@,
{
    out.push_str(text)
}

/// Appends `c` to `text`, by `String::push`, which std documents to append
/// the character at the end of the string.
#[verifier::external_body]
pub(crate) fn push_char(text: &mut String, c: char)
    ensures
        final(text)@ == old(text)@.push(c),
{
    text.push(c)
}

/// Takes the last character off `text`, by `String::pop`, which std documents
/// to remove and return the last character, or to return `None` where the
/// string is empty.
#[verifier::external_body]
pub(crate) fn pop_char(text: &mut String) -> (last: Option<char>)
    ensures
        old(text)@.len() == 0 ==> last is None && final(text)@ == old(text)@,
        old(text)@.len() > 0 ==> last == Some(old(text)@.last()) && final(text)@ == old(text)@.drop_last(),
{
    text.pop()
}

/// Empties `text`, by `String::clear`, which std documents to remove all
/// contents.
#[verifier::external_body]
pub(crate) fn clear_text(text: &mut String)
    ensures
        final(text)@ == Seq::<char>::empty(),
{
    text.clear()
}

} // verus!
