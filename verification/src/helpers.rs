use vstd::prelude::*;

verus! {

/// Relies on `String::push` of std: it appends the given character to the
/// end of the string.
pub assume_specification[ String::push ](s: &mut String, c: char)
    ensures
        final(s)@ == old(s)@.push(c),
;

/// Character-wise string equality.
#[verifier::loop_isolation(false)]
pub fn str_eq(a: &str, b: &str) -> (r: bool)
    ensures
        r == (a@ == b@),
{
    let n = a.unicode_len();
    let m = b.unicode_len();
    if n != m {
        return false;
    }
    let mut i: usize = 0;
    while i < n
        invariant
            i <= n,
            forall|k: int| 0 <= k < i ==> a@[k] == b@[k],
        decreases n - i,
    {
        if a.get_char(i) != b.get_char(i) {
            return false;
        }
        i = i + 1;
    }
    proof {
        assert(a@ =~= b@);
    }
    true
}

/// A line terminator: line feed or carriage return.
pub open spec fn spec_is_line_terminator(c: char) -> bool {
    c == '\u{000A}' || c == '\u{000D}'
}

pub fn is_line_terminator(c: char) -> (r: bool)
    ensures
        r == spec_is_line_terminator(c),
{
    c == crate::constants::NEW_LINE || c == crate::constants::CARRIAGE_RETURN
}

/// A character that may start a name: a letter or an underscore.
pub open spec fn spec_is_name_start(c: char) -> bool {
    ('a' <= c && c <= 'z') || ('A' <= c && c <= 'Z') || c == '_'
}

/// A character that may continue a name: a letter, an ASCII digit, or an
/// underscore.
pub open spec fn spec_is_name_continue(c: char) -> bool {
    spec_is_name_start(c) || ('0' <= c && c <= '9')
}

/// The shape every identifier must have: a letter or underscore followed by
/// letters, digits and underscores, and at least one character long.
pub open spec fn spec_is_valid_name(s: Seq<char>) -> bool {
    &&& s.len() > 0
    &&& spec_is_name_start(s[0])
    &&& forall|i: int| 1 <= i < s.len() ==> spec_is_name_continue(#[trigger] s[i])
}

#[verifier::loop_isolation(false)]
pub fn is_valid_name(value: &String) -> (r: bool)
    ensures
        r == spec_is_valid_name(value@),
{
    let s = value.as_str();
    let n = s.unicode_len();
    if n == 0 {
        return false;
    }
    let first_char = s.get_char(0);
    if !(('a' <= first_char && first_char <= 'z') || ('A' <= first_char && first_char <= 'Z')
        || first_char == '_') {
        return false;
    }
    let mut i: usize = 1;
    while i < n
        invariant
            1 <= i <= n,
            n == s@.len(),
            s@ == value@,
            spec_is_name_start(s@[0]),
            forall|k: int| 1 <= k < i ==> spec_is_name_continue(#[trigger] s@[k]),
        decreases n - i,
    {
        let c = s.get_char(i);
        if !(('a' <= c && c <= 'z') || ('A' <= c && c <= 'Z') || ('0' <= c && c <= '9') || c
            == '_') {
            return false;
        }
        i = i + 1;
    }
    true
}

} // verus!
