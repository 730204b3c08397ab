//! Generated interface names: a fixed prefix followed by a decimal number,
//! the number being the first one, counting up from a seed, whose name is
//! not taken yet.

use crate::types::views;
use vstd::prelude::*;
use vstd::string::*;

verus! {

/// The number of candidate names tried before giving up.
pub const MAX_PROBES: u32 = 4096;

/// The character of a decimal digit.
pub open spec fn digit_char(d: nat) -> char {
    seq!['0', '1', '2', '3', '4', '5', '6', '7', '8', '9'][d as int]
}

/// The decimal representation of `n`, without leading zeros.
pub open spec fn decimal(n: nat) -> Seq<char>
    decreases n,
{
    if n < 10 {
        seq![digit_char(n)]
    } else {
        decimal(n / 10).push(digit_char(n % 10))
    }
}

/// The name with number `n` under `prefix`.
pub open spec fn generated_name(prefix: Seq<char>, n: nat) -> Seq<char> {
    prefix + decimal(n)
}

/// The first of the `tries` names numbered from `seed` upwards that is not
/// in `taken`, if there is one.
pub open spec fn first_free_name(
    prefix: Seq<char>,
    seed: nat,
    taken: Seq<Seq<char>>,
    tries: nat,
) -> Option<Seq<char>>
    decreases tries,
{
    if tries == 0 {
        None
    } else if !taken.contains(generated_name(prefix, seed)) {
        Some(generated_name(prefix, seed))
    } else {
        first_free_name(prefix, seed + 1, taken, (tries - 1) as nat)
    }
}

/// A name that was picked is not among the taken ones.
pub proof fn lemma_first_free_is_free(
    prefix: Seq<char>,
    seed: nat,
    taken: Seq<Seq<char>>,
    tries: nat,
)
    ensures
        first_free_name(prefix, seed, taken, tries) matches Some(name) ==> !taken.contains(name),
    decreases tries,
{
    if tries > 0 && taken.contains(generated_name(prefix, seed)) {
        lemma_first_free_is_free(prefix, seed + 1, taken, (tries - 1) as nat);
    }
}

/// The text of one decimal digit.
fn digit_text(d: u64) -> (r: &'static str)
    requires
        d < 10,
    ensures
        r@ == seq![digit_char(d as nat)],
{
    proof {
        reveal_strlit("0");
        reveal_strlit("1");
        reveal_strlit("2");
        reveal_strlit("3");
        reveal_strlit("4");
        reveal_strlit("5");
        reveal_strlit("6");
        reveal_strlit("7");
        reveal_strlit("8");
        reveal_strlit("9");
    }
    let r = if d == 0 {
        "0"
    } else if d == 1 {
        "1"
    } else if d == 2 {
        "2"
    } else if d == 3 {
        "3"
    } else if d == 4 {
        "4"
    } else if d == 5 {
        "5"
    } else if d == 6 {
        "6"
    } else if d == 7 {
        "7"
    } else if d == 8 {
        "8"
    } else {
        "9"
    };
    assert(r@ =~= seq![digit_char(d as nat)]);
    r
}

/// Writes `n` in decimal.
pub fn decimal_string(n: u64) -> (r: String)
    ensures
        r@ == decimal(n as nat),
    decreases n,
{
    if n < 10 {
        String::from_str(digit_text(n))
    } else {
        let mut r = decimal_string(n / 10);
        r.append(digit_text(n % 10));
        assert(r@ =~= decimal(n as nat));
        r
    }
}

/// Whether `name` is among `taken`.
pub fn is_taken(taken: &Vec<String>, name: &String) -> (r: bool)
    ensures
        r == views(taken@).contains(name@),
{
    let mut i: usize = 0;
    while i < taken.len()
        invariant
            i <= taken.len(),
            forall|j: int| 0 <= j < i ==> views(taken@)[j] != name@,
        decreases taken.len() - i,
    {
        if taken[i] == *name {
            assert(views(taken@)[i as int] == name@);
            return true;
        }
        i += 1;
    }
    false
}

/// Picks the name for a generated interface: the first of `prefix` followed
/// by `seed`, `seed + 1`, ... that is not in `taken`. Gives up, with `None`,
/// when `MAX_PROBES` names in a row are taken.
pub fn pick_name(prefix: &str, seed: u32, taken: &Vec<String>) -> (r: Option<String>)
    ensures
        match r {
            Some(name) => first_free_name(prefix@, seed as nat, views(taken@), MAX_PROBES as nat)
                == Some(name@),
            None => first_free_name(prefix@, seed as nat, views(taken@), MAX_PROBES as nat)
                is None,
        },
        r matches Some(name) ==> !views(taken@).contains(name@),
{
    let mut k: u32 = 0;
    while k < MAX_PROBES
        invariant
            k <= MAX_PROBES,
            first_free_name(prefix@, seed as nat, views(taken@), MAX_PROBES as nat)
                == first_free_name(
                prefix@,
                (seed + k) as nat,
                views(taken@),
                (MAX_PROBES - k) as nat,
            ),
        decreases MAX_PROBES - k,
    {
        let number: u64 = seed as u64 + k as u64;
        let mut name = String::from_str(prefix);
        let digits = decimal_string(number);
        name.append(digits.as_str());
        assert(name@ == generated_name(prefix@, (seed + k) as nat));
        if !is_taken(taken, &name) {
            return Some(name);
        }
        k += 1;
    }
    None
}

} // verus!
