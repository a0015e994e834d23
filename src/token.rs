//! The text form of a stream's frontier: an item identifier written in
//! decimal, as it is kept in the token store.
use crate::text::push_char;
use vstd::prelude::*;

verus! {

pub open spec fn is_digit(c: char) -> bool {
    '0' <= c && c <= '9'
}

/// The value of a decimal digit character.
pub open spec fn digit_of(c: char) -> nat {
    ((c as u32) - ('0' as u32)) as nat
}

/// The character of a decimal digit.
pub open spec fn digit_char(d: nat) -> char {
    seq!['0', '1', '2', '3', '4', '5', '6', '7', '8', '9'][d as int]
}

/// A non-empty string of decimal digits.
pub open spec fn is_decimal(s: Seq<char>) -> bool {
    s.len() > 0 && forall|i: int| 0 <= i < s.len() ==> is_digit(#[trigger] s[i])
}

/// The number that a string of decimal digits denotes.
pub open spec fn decimal_value(s: Seq<char>) -> nat
    decreases s.len(),
{
    if s.len() == 0 {
        0
    } else {
        decimal_value(s.drop_last()) * 10 + digit_of(s.last())
    }
}

/// The shortest decimal form of `n`.
pub open spec fn decimal(n: nat) -> Seq<char>
    decreases n,
{
    if n < 10 {
        seq![digit_char(n)]
    } else {
        decimal(n / 10).push(digit_char(n % 10))
    }
}

proof fn lemma_digit(d: nat)
    requires
        d < 10,
    ensures
        is_digit(digit_char(d)),
        digit_of(digit_char(d)) == d,
{
    assert(seq!['0', '1', '2', '3', '4', '5', '6', '7', '8', '9'][d as int] == digit_char(d));
    if d == 0 {
    } else if d == 1 {
    } else if d == 2 {
    } else if d == 3 {
    } else if d == 4 {
    } else if d == 5 {
    } else if d == 6 {
    } else if d == 7 {
    } else if d == 8 {
    } else {
    }
}

/// The shortest decimal form of `n` is a decimal string whose value is `n`.
pub proof fn lemma_decimal_round_trip(n: nat)
    ensures
        is_decimal(decimal(n)),
        decimal_value(decimal(n)) == n,
    decreases n,
{
    if n < 10 {
        lemma_digit(n);
        assert(decimal(n).drop_last() =~= Seq::<char>::empty());
        assert(decimal_value(decimal(n)) == decimal_value(decimal(n).drop_last()) * 10 + digit_of(
            decimal(n).last(),
        ));
        assert(decimal_value(Seq::<char>::empty()) == 0);
    } else {
        lemma_decimal_round_trip(n / 10);
        lemma_digit(n % 10);
        let s = decimal(n);
        assert(s.drop_last() =~= decimal(n / 10));
        assert(s.last() == digit_char(n % 10));
        assert((n / 10) * 10 + n % 10 == n);
        assert(decimal_value(s) == decimal_value(s.drop_last()) * 10 + digit_of(s.last()));
        assert forall|i: int| 0 <= i < s.len() implies is_digit(#[trigger] s[i]) by {
            if i < s.len() - 1 {
                assert(s[i] == decimal(n / 10)[i]);
            }
        }
    }
}

proof fn lemma_prefix_value_grows(s: Seq<char>, i: int)
    requires
        0 <= i <= s.len(),
    ensures
        decimal_value(s.take(i)) <= decimal_value(s),
    decreases s.len() - i,
{
    if i < s.len() {
        lemma_prefix_value_grows(s, i + 1);
        assert(s.take(i + 1).drop_last() =~= s.take(i));
    } else {
        assert(s.take(i) =~= s);
    }
}

fn digit_to_char(d: u64) -> (c: char)
    requires
        d < 10,
    ensures
        c == digit_char(d as nat),
{
    if d == 0 {
        '0'
    } else if d == 1 {
        '1'
    } else if d == 2 {
        '2'
    } else if d == 3 {
        '3'
    } else if d == 4 {
        '4'
    } else if d == 5 {
        '5'
    } else if d == 6 {
        '6'
    } else if d == 7 {
        '7'
    } else if d == 8 {
        '8'
    } else {
        '9'
    }
}

fn push_decimal(s: &mut String, n: u64)
    ensures
        final(s)@ == old(s)@ + decimal(n as nat),
    decreases n,
{
    if n < 10 {
        push_char(s, digit_to_char(n));
        assert(decimal(n as nat) =~= seq![digit_char(n as nat)]);
    } else {
        push_decimal(s, n / 10);
        push_char(s, digit_to_char(n % 10));
        assert(old(s)@ + decimal(n as nat) =~= old(s)@ + decimal((n / 10) as nat) + seq![
            digit_char((n % 10) as nat),
        ]);
    }
}

/// The token under which frontier `id` is stored: its shortest decimal form.
pub fn id_to_token(id: u64) -> (r: String)
    ensures
        r@ == decimal(id as nat),
{
    let mut s = String::new();
    push_decimal(&mut s, id);
    assert(s@ =~= decimal(id as nat));
    s
}

/// The frontier that a stored token denotes: `None` unless the token is a
/// non-empty string of decimal digits whose value fits in a `u64`.
pub fn token_to_id(token: &str) -> (r: Option<u64>)
    ensures
        r is Some <==> (is_decimal(token@) && decimal_value(token@) <= u64::MAX),
        r is Some ==> r.unwrap() == decimal_value(token@),
{
    let mut v: u64 = 0;
    let mut all_digits = true;
    let mut seen_any = false;
    for c in it: token.chars()
        invariant
            it.seq() == token@,
            seen_any == (it.index() > 0),
            all_digits ==> forall|j: int| 0 <= j < it.index() ==> is_digit(#[trigger] token@[j]),
            all_digits ==> v == decimal_value(token@.take(it.index() as int)),
            !all_digits ==> !(is_decimal(token@) && decimal_value(token@) <= u64::MAX),
    {
        proof {
            assert(token@[it.index() as int] == c);
        }
        if all_digits {
            if '0' <= c && c <= '9' {
                let d = (c as u32 - '0' as u32) as u64;
                let ghost i = it.index() as int;
                assert(token@.take(i + 1).drop_last() =~= token@.take(i));
                if v <= (u64::MAX - d) / 10 {
                    v = v * 10 + d;
                } else {
                    proof {
                        lemma_prefix_value_grows(token@, i + 1);
                    }
                    all_digits = false;
                }
            } else {
                all_digits = false;
            }
        }
        seen_any = true;
    }
    proof {
        assert(token@.take(token@.len() as int) =~= token@);
    }
    if all_digits && seen_any {
        Some(v)
    } else {
        None
    }
}

} // verus!
