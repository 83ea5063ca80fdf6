use vstd::prelude::*;
use tui_input::{Input, InputRequest};

verus! {

/// `tui_input::Input`: a line of text with a cursor, counted in characters.
#[verifier::external_type_specification]
#[verifier::external_body]
pub struct ExInput(tui_input::Input);

/// The characters that the buffer holds.
pub uninterp spec fn input_chars(input: Input) -> Seq<char>;

/// The number of characters before the buffer's cursor.
pub uninterp spec fn input_cursor(input: Input) -> nat;

/// `Input::default()` is the empty buffer with the cursor at its start.
pub assume_specification[ <Input as core::default::Default>::default ]() -> (input: Input)
    ensures
        input_chars(input) == Seq::<char>::empty(),
        input_cursor(input) == 0,
;

/// `Input::value` hands out the text of the buffer.
pub assume_specification<'a>[ Input::value ](input: &'a Input) -> (value: &'a str)
    ensures
        value@ == input_chars(*input),
;

/// `Input::cursor` hands out the cursor, in characters from the start.
pub assume_specification[ Input::cursor ](input: &Input) -> (cursor: usize)
    ensures
        cursor == input_cursor(*input),
;

/// `Input::handle(InputRequest::InsertChar(c))` puts `c` in at the cursor and
/// moves the cursor past it.
#[verifier::external_body]
pub(crate) fn insert_char(input: &mut Input, c: char)
    ensures
        input_chars(*final(input)) == input_chars(*old(input)).insert(
            input_cursor(*old(input)) as int,
            c,
        ),
        input_cursor(*final(input)) == input_cursor(*old(input)) + 1,
{
    input.handle(InputRequest::InsertChar(c));
}

/// `Input::handle(InputRequest::DeletePrevChar)` takes out the character before
/// the cursor and moves the cursor back by one; with the cursor at the start it
/// changes nothing.
#[verifier::external_body]
pub(crate) fn delete_prev_char(input: &mut Input)
    ensures
        input_cursor(*old(input)) == 0 ==> input_chars(*final(input)) == input_chars(*old(input))
            && input_cursor(*final(input)) == 0,
        input_cursor(*old(input)) > 0 ==> input_chars(*final(input)) == input_chars(
            *old(input),
        ).remove(input_cursor(*old(input)) - 1) && input_cursor(*final(input)) == input_cursor(
            *old(input),
        ) - 1,
{
    input.handle(InputRequest::DeletePrevChar);
}

} // verus!
