use vstd::prelude::*;

verus! {

pub const NEW_LINE: char = '\u{000A}';

pub const CARRIAGE_RETURN: char = '\u{000D}';

pub const SPACE: char = '\u{0020}';

pub const TAB: char = '\u{0009}';

pub const BOM: char = '\u{FEFF}';

} // verus!
