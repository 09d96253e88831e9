//! Room codes: the letters that players type to join a room.
use vstd::prelude::*;

use crate::entropy::random;
use crate::text::to_chars;

verus! {

/// The letters of a room code.
pub const ALPHA_CAPITAL: [char; 26] = [
    'A', 'B', 'C', 'D', 'E', 'F', 'G', 'H', 'I', 'J', 'K', 'L', 'M', 'N', 'O', 'P', 'Q', 'R', 'S',
    'T', 'U', 'V', 'W', 'X', 'Y', 'Z',
];

/// How many letters a room code has.
pub const ROOM_CODE_LEN: usize = 4;

/// `c` in upper case, where it is a lower case ASCII letter.
pub open spec fn ascii_upper(c: char) -> char {
    if 'a' <= c && c <= 'z' {
        ((c as u8 - 32) as u8) as char
    } else {
        c
    }
}

/// `code` is one that a room can have: four capital letters.
pub open spec fn is_room_code(code: Seq<char>) -> bool {
    &&& code.len() == ROOM_CODE_LEN
    &&& forall|i: int| 0 <= i < code.len() ==> 'A' <= #[trigger] code[i] && code[i] <= 'Z'
}

/// `nanoid::format` of the `nanoid` crate, with [`random`] for its source of
/// bytes: an id of `size` characters, each taken from `alphabet`. Which ones
/// is left to chance. The crate panics on an alphabet of more than 255
/// characters, overflows on a size whose eightfold is no `usize`, counts bytes
/// where it means characters, and never ends on an empty alphabet or a size of
/// zero.
#[verifier::external_body]
fn nanoid_format(alphabet: &[char], size: usize) -> (id: String)
    requires
        0 < alphabet@.len() <= 255,
        forall|i: int| 0 <= i < alphabet@.len() ==> #[trigger] alphabet@[i] < '\u{80}',
        0 < size,
        8 * size <= usize::MAX,
    ensures
        id@.len() == size,
        forall|i: int| 0 <= i < id@.len() ==> alphabet@.contains(#[trigger] id@[i]),
{
    nanoid::format(random, alphabet, size)
}

/// `code` with its lower case ASCII letters in upper case.
pub fn to_ascii_uppercase(code: &str) -> (upper: String)
    ensures
        upper@ == code@.map_values(|c: char| ascii_upper(c)),
{
    let chars = to_chars(code);
    let mut upper = String::new();
    for i in 0..chars.len()
        invariant
            chars@ == code@,
            upper@ == code@.take(i as int).map_values(|c: char| ascii_upper(c)),
    {
        let c = chars[i];
        if 'a' <= c && c <= 'z' {
            upper.push((c as u8 - 32) as char);
        } else {
            upper.push(c);
        }
        assert(upper@ =~= code@.take(i + 1).map_values(|c: char| ascii_upper(c)));
    }
    assert(code@.take(code@.len() as int) =~= code@);
    upper
}

/// A code for a new room.
pub fn room_id() -> (code: String)
    ensures
        is_room_code(code@),
{
    let code = nanoid_format(&ALPHA_CAPITAL, ROOM_CODE_LEN);
    to_ascii_uppercase(&code)
}

/// A room code is in upper case already.
pub proof fn law_room_code_is_upper(code: Seq<char>)
    requires
        is_room_code(code),
    ensures
        code.map_values(|c: char| ascii_upper(c)) == code,
{
    assert(code.map_values(|c: char| ascii_upper(c)) =~= code);
}

/// The twenty-six small letters become the capitals that stand thirty-two places
/// before them, and every other character stays.
pub proof fn law_small_letters_become_capitals(c: char)
    ensures
        0x61 <= c as int <= 0x7a ==> ascii_upper(c) as int == c as int - 32,
        c as int > 0x7a || (c as int) < 0x61 ==> ascii_upper(c) == c,
{
}

/// A room code is four letters out of the alphabet of capitals, which holds all
/// twenty-six in their order.
pub proof fn law_room_codes_are_four_capitals(code: Seq<char>, i: int)
    requires
        0 <= i < 26,
    ensures
        is_room_code(code) <==> code.len() == 4 && forall|k: int|
            0 <= k < 4 ==> 0x41 <= #[trigger] code[k] as int <= 0x5a,
        ALPHA_CAPITAL@[i] as int == 0x41 + i,
{
}

} // verus!
