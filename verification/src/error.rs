use vstd::prelude::*;

verus! {

/// The one way in which parsing fails: the text is not a value of the type.
/// It carries no reason; wrong length, bad character and bad checksum are
/// all the same rejection.
#[derive(Debug, Clone, Copy, PartialEq, Eq, Structural)]
pub struct InvalidFormat;

} // verus!
