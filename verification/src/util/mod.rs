//! Passwords, and the commands that are run.

use vstd::prelude::*;

use crate::text::{characters, owned};

pub mod cmd;

verus! {

/// The characters of passwords: letters and digits that are not easily mixed up.
pub const CHARACTERS: &'static str = "abcdefghijkmnopqrstuvwxyzABCDEFGHJKLMNPQRSTUVWXYZ23456789";

/// The password that random bytes make: a character for each.
pub open spec fn password_spec(bytes: Seq<u8>) -> Seq<char> {
    Seq::new(bytes.len(), |i: int| CHARACTERS@[bytes[i] as int % 57])
}

/// Makes a password of random bytes.
pub fn random_password(bytes: &[u8; 32]) -> (password: String)
    ensures
        password@ == password_spec(bytes@),
        password@.len() == 32,
        forall|i: int| 0 <= i < 32 ==> CHARACTERS@.contains(#[trigger] password@[i]),
{
    proof {
        reveal_strlit("abcdefghijkmnopqrstuvwxyzABCDEFGHJKLMNPQRSTUVWXYZ23456789");
        reveal_strlit("");
    }
    let characters = characters(CHARACTERS);
    let mut password = owned("");
    let mut index: usize = 0;
    while index < 32
        invariant
            index <= 32,
            characters@ == CHARACTERS@,
            characters@.len() == 57,
            password@ == password_spec(bytes@).take(index as int),
        decreases 32 - index,
    {
        let place: usize = bytes[index] as usize % 57;
        password.push(characters[place]);
        proof {
            assert(password_spec(bytes@).take(index + 1) =~= password_spec(bytes@).take(
                index as int,
            ).push(characters@[place as int]));
        }
        index += 1;
    }
    proof {
        assert(password_spec(bytes@).take(32) =~= password_spec(bytes@));
        assert forall|i: int| 0 <= i < 32 implies CHARACTERS@.contains(
            #[trigger] password@[i],
        ) by {
            assert(password@[i] == CHARACTERS@[bytes@[i] as int % 57]);
        }
    }
    password
}

/// Every byte decides its own character of a password, each of the characters can come, and
/// none of those that are easily mixed up does: a small L, a capital I or O, a zero or a one.
pub proof fn law_passwords_are_readable(bytes: Seq<u8>, i: int, k: u8)
    requires
        0 <= i < bytes.len(),
        k < 57,
    ensures
        password_spec(bytes).len() == bytes.len(),
        bytes[i] % 57 == k ==> password_spec(bytes)[i] == CHARACTERS@[k as int],
        CHARACTERS@.len() == 57,
        CHARACTERS@.no_duplicates(),
        forall|c: char| #[trigger] CHARACTERS@.contains(c) ==> {
            &&& ('a' <= c <= 'z' || 'A' <= c <= 'Z' || '2' <= c <= '9')
            &&& c != 'l' && c != 'I' && c != 'O'
        },
{
    reveal_strlit("abcdefghijkmnopqrstuvwxyzABCDEFGHJKLMNPQRSTUVWXYZ23456789");
    let all = CHARACTERS@;
    assert forall|a: int, b: int| 0 <= a < b < 57 implies all[a] != all[b] by {
        assert(all[a] as int == code_at(a));
        assert(all[b] as int == code_at(b));
    }
    assert forall|c: char| #[trigger] all.contains(c) implies ('a' <= c <= 'z' || 'A' <= c <= 'Z'
        || '2' <= c <= '9') && c != 'l' && c != 'I' && c != 'O' by {
        let a = all.index_of(c);
        assert(all[a] as int == code_at(a));
    }
}

/// The code of a password character by its place.
spec fn code_at(place: int) -> int {
    if place < 11 {
        97 + place
    } else if place < 25 {
        98 + place
    } else if place < 33 {
        65 + place - 25
    } else if place < 38 {
        66 + place - 25
    } else if place < 49 {
        67 + place - 25
    } else {
        50 + place - 49
    }
}

} // verus!
