//! Hardware addresses as text: six octets, each as two hexadecimal digits,
//! with a colon between one octet and the next.

use crate::types::HardwareAddr;
use vstd::prelude::*;
use vstd::string::*;

verus! {

/// The character of a hexadecimal digit, in lower case.
pub open spec fn hex_char(d: nat) -> char {
    seq!['0', '1', '2', '3', '4', '5', '6', '7', '8', '9', 'a', 'b', 'c', 'd', 'e', 'f'][d as int]
}

/// The value of a hexadecimal digit, in either case; none for any other
/// character.
pub open spec fn hex_value(c: char) -> Option<nat> {
    if c == '0' {
        Some(0)
    } else if c == '1' {
        Some(1)
    } else if c == '2' {
        Some(2)
    } else if c == '3' {
        Some(3)
    } else if c == '4' {
        Some(4)
    } else if c == '5' {
        Some(5)
    } else if c == '6' {
        Some(6)
    } else if c == '7' {
        Some(7)
    } else if c == '8' {
        Some(8)
    } else if c == '9' {
        Some(9)
    } else if c == 'a' || c == 'A' {
        Some(10)
    } else if c == 'b' || c == 'B' {
        Some(11)
    } else if c == 'c' || c == 'C' {
        Some(12)
    } else if c == 'd' || c == 'D' {
        Some(13)
    } else if c == 'e' || c == 'E' {
        Some(14)
    } else if c == 'f' || c == 'F' {
        Some(15)
    } else {
        None
    }
}

/// The text of an address of six octets: seventeen characters, every third
/// one a colon, the others the digits of the octets, high digit first.
pub open spec fn addr_text(addr: Seq<u8>) -> Seq<char> {
    Seq::new(
        17,
        |i: int|
            if i % 3 == 2 {
                ':'
            } else if i % 3 == 0 {
                hex_char((addr[i / 3] / 16) as nat)
            } else {
                hex_char((addr[i / 3] % 16) as nat)
            },
    )
}

/// Whether `text` has the shape of an address: seventeen characters, every
/// third one a colon, the others hexadecimal digits.
pub open spec fn is_addr_text(text: Seq<char>) -> bool {
    &&& text.len() == 17
    &&& forall|i: int|
        0 <= i < 17 ==> if i % 3 == 2 {
            #[trigger] text[i] == ':'
        } else {
            hex_value(text[i]) is Some
        }
}

/// The octet that the digits at position `k` of an address text stand for.
pub open spec fn octet_at(text: Seq<char>, k: int) -> u8 {
    (hex_value(text[3 * k])->0 * 16 + hex_value(text[3 * k + 1])->0) as u8
}

/// The address that `text` stands for; none where it has not the shape of
/// one.
pub open spec fn parse_spec(text: Seq<char>) -> Option<Seq<u8>> {
    if is_addr_text(text) {
        Some(Seq::new(6, |k: int| octet_at(text, k)))
    } else {
        None
    }
}

/// The text of one hexadecimal digit.
fn hex_text(d: u8) -> (r: &'static str)
    requires
        d < 16,
    ensures
        r@ == seq![hex_char(d as nat)],
{
    proof {
        reveal_strlit("0");
        reveal_strlit("1");
        reveal_strlit("2");
        reveal_strlit("3");
        reveal_strlit("4");
        reveal_strlit("5");
        reveal_strlit("6");
        reveal_strlit("7");
        reveal_strlit("8");
        reveal_strlit("9");
        reveal_strlit("a");
        reveal_strlit("b");
        reveal_strlit("c");
        reveal_strlit("d");
        reveal_strlit("e");
        reveal_strlit("f");
    }
    let r = if d == 0 {
        "0"
    } else if d == 1 {
        "1"
    } else if d == 2 {
        "2"
    } else if d == 3 {
        "3"
    } else if d == 4 {
        "4"
    } else if d == 5 {
        "5"
    } else if d == 6 {
        "6"
    } else if d == 7 {
        "7"
    } else if d == 8 {
        "8"
    } else if d == 9 {
        "9"
    } else if d == 10 {
        "a"
    } else if d == 11 {
        "b"
    } else if d == 12 {
        "c"
    } else if d == 13 {
        "d"
    } else if d == 14 {
        "e"
    } else {
        "f"
    };
    assert(r@ =~= seq![hex_char(d as nat)]);
    r
}

/// Reads one hexadecimal digit.
fn hex_digit(c: char) -> (r: Option<u8>)
    ensures
        match r {
            Some(d) => hex_value(c) == Some(d as nat),
            None => hex_value(c) is None,
        },
{
    if c == '0' {
        Some(0)
    } else if c == '1' {
        Some(1)
    } else if c == '2' {
        Some(2)
    } else if c == '3' {
        Some(3)
    } else if c == '4' {
        Some(4)
    } else if c == '5' {
        Some(5)
    } else if c == '6' {
        Some(6)
    } else if c == '7' {
        Some(7)
    } else if c == '8' {
        Some(8)
    } else if c == '9' {
        Some(9)
    } else if c == 'a' || c == 'A' {
        Some(10)
    } else if c == 'b' || c == 'B' {
        Some(11)
    } else if c == 'c' || c == 'C' {
        Some(12)
    } else if c == 'd' || c == 'D' {
        Some(13)
    } else if c == 'e' || c == 'E' {
        Some(14)
    } else if c == 'f' || c == 'F' {
        Some(15)
    } else {
        None
    }
}

impl HardwareAddr {
    /// Writes the address as text, in lower case.
    pub fn to_text(&self) -> (r: String)
        ensures
            r@ == addr_text(self@),
    {
        let ghost want = addr_text(self@);
        let mut r = String::new();
        let mut k: usize = 0;
        while k < 6
            invariant
                k <= 6,
                want == addr_text(self@),
                r@ == want.take(if k < 6 {
                    3 * k as int
                } else {
                    17
                }),
            decreases 6 - k,
        {
            let octet: u8 = self.octets[k];
            r.append(hex_text(octet / 16));
            r.append(hex_text(octet % 16));
            assert(r@ =~= want.take(3 * k as int + 2));
            if k < 5 {
                proof {
                    reveal_strlit(":");
                }
                r.append(":");
                assert(r@ =~= want.take(3 * k as int + 3));
            }
            k += 1;
        }
        assert(want.take(17) =~= want);
        r
    }

    /// Reads an address from text. The text must be what `to_text` writes,
    /// but for the case of the digits.
    pub fn parse(text: &str) -> (r: Option<HardwareAddr>)
        ensures
            match r {
                Some(addr) => parse_spec(text@) == Some(addr@),
                None => parse_spec(text@) is None,
            },
    {
        if text.unicode_len() != 17 {
            return None;
        }
        let mut octets: [u8; 6] = [0u8, 0u8, 0u8, 0u8, 0u8, 0u8];
        let mut k: usize = 0;
        while k < 6
            invariant
                k <= 6,
                text@.len() == 17,
                forall|j: int| 0 <= j < k ==> octets@[j] == octet_at(text@, j),
                forall|i: int|
                    0 <= i < 3 * k && i < 17 ==> if i % 3 == 2 {
                        #[trigger] text@[i] == ':'
                    } else {
                        hex_value(text@[i]) is Some
                    },
            decreases 6 - k,
        {
            let high = match hex_digit(text.get_char(3 * k)) {
                Some(d) => d,
                None => {
                    assert(!is_addr_text(text@)) by {
                        assert(text@[3 * k as int] == text@[3 * k as int]);
                    }
                    return None;
                },
            };
            let low = match hex_digit(text.get_char(3 * k + 1)) {
                Some(d) => d,
                None => {
                    assert(!is_addr_text(text@)) by {
                        assert(text@[3 * k as int + 1] == text@[3 * k as int + 1]);
                    }
                    return None;
                },
            };
            if k < 5 && text.get_char(3 * k + 2) != ':' {
                assert(!is_addr_text(text@)) by {
                    assert(text@[3 * k as int + 2] != ':');
                }
                return None;
            }
            octets[k] = high * 16 + low;
            k += 1;
        }
        let addr = HardwareAddr { octets };
        assert(is_addr_text(text@));
        assert(addr@ =~= Seq::new(6, |k: int| octet_at(text@, k)));
        Some(addr)
    }
}

/// The value of each digit character is the digit.
pub proof fn lemma_hex_value_of_char(d: nat)
    requires
        d < 16,
    ensures
        hex_value(hex_char(d)) == Some(d),
{
}

/// Reading what was written gives the address back.
pub proof fn lemma_parse_of_text(addr: Seq<u8>)
    requires
        addr.len() == 6,
    ensures
        parse_spec(addr_text(addr)) == Some(addr),
{
    let text = addr_text(addr);
    assert forall|i: int| 0 <= i < 17 implies if i % 3 == 2 {
        #[trigger] text[i] == ':'
    } else {
        hex_value(text[i]) is Some
    } by {
        if i % 3 == 0 {
            lemma_hex_value_of_char((addr[i / 3] / 16) as nat);
        } else if i % 3 == 1 {
            lemma_hex_value_of_char((addr[i / 3] % 16) as nat);
        }
    }
    let parsed = parse_spec(text)->0;
    assert forall|k: int| 0 <= k < 6 implies parsed[k] == addr[k] by {
        lemma_hex_value_of_char((addr[k] / 16) as nat);
        lemma_hex_value_of_char((addr[k] % 16) as nat);
        assert((3 * k) / 3 == k && (3 * k) % 3 == 0);
        assert((3 * k + 1) / 3 == k && (3 * k + 1) % 3 == 1);
    }
    assert(parsed =~= addr);
}

} // verus!
