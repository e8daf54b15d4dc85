//! Identifiers of connections and sessions, made from clock readings: a
//! connect id is the time in nanoseconds in lowercase hexadecimal, at least
//! 16 digits; a session id is "s" and the time in milliseconds in decimal.
use vstd::prelude::*;
use vstd::string::StringExecFns;

verus! {

/// The lowercase hexadecimal digit of `d` (below 16).
pub open spec fn hex_char(d: nat) -> char {
    if d < 10 {
        (d + 48) as char
    } else {
        (d + 87) as char
    }
}

/// The decimal digit of `d` (below 10).
pub open spec fn dec_char(d: nat) -> char {
    (d + 48) as char
}

/// The lowercase hexadecimal digits of `n`, most significant first, with no
/// leading zeros ("0" for zero).
pub open spec fn hex_digits(n: nat) -> Seq<char>
    decreases n,
{
    if n < 16 {
        seq![hex_char(n)]
    } else {
        hex_digits(n / 16).push(hex_char(n % 16))
    }
}

/// The decimal digits of `n`, most significant first, with no leading
/// zeros ("0" for zero).
pub open spec fn dec_digits(n: nat) -> Seq<char>
    decreases n,
{
    if n < 10 {
        seq![dec_char(n)]
    } else {
        dec_digits(n / 10).push(dec_char(n % 10))
    }
}

/// `s` with zeros put in front until it is `width` characters long.
pub open spec fn zero_padded(s: Seq<char>, width: nat) -> Seq<char> {
    if s.len() >= width {
        s
    } else {
        Seq::new((width - s.len()) as nat, |i: int| '0') + s
    }
}

/// The one-character text of the hexadecimal digit `d`.
fn hex_char_str(d: u128) -> (s: &'static str)
    requires
        d < 16,
    ensures
        s@ == seq![hex_char(d as nat)],
{
    proof {
        reveal_strlit("0");
        reveal_strlit("1");
        reveal_strlit("2");
        reveal_strlit("3");
        reveal_strlit("4");
        reveal_strlit("5");
        reveal_strlit("6");
        reveal_strlit("7");
        reveal_strlit("8");
        reveal_strlit("9");
        reveal_strlit("a");
        reveal_strlit("b");
        reveal_strlit("c");
        reveal_strlit("d");
        reveal_strlit("e");
        reveal_strlit("f");
    }
    let s = if d == 0 {
        "0"
    } else if d == 1 {
        "1"
    } else if d == 2 {
        "2"
    } else if d == 3 {
        "3"
    } else if d == 4 {
        "4"
    } else if d == 5 {
        "5"
    } else if d == 6 {
        "6"
    } else if d == 7 {
        "7"
    } else if d == 8 {
        "8"
    } else if d == 9 {
        "9"
    } else if d == 10 {
        "a"
    } else if d == 11 {
        "b"
    } else if d == 12 {
        "c"
    } else if d == 13 {
        "d"
    } else if d == 14 {
        "e"
    } else {
        "f"
    };
    assert(s@ =~= seq![hex_char(d as nat)]);
    s
}

/// Appends the hexadecimal digits of `n`.
fn append_hex(out: &mut String, n: u128)
    ensures
        final(out)@ == old(out)@ + hex_digits(n as nat),
    decreases n,
{
    if n >= 16 {
        append_hex(out, n / 16);
    }
    out.append(hex_char_str(n % 16));
    assert(out@ =~= old(out)@ + hex_digits(n as nat));
}

/// Appends the decimal digits of `n`.
fn append_dec(out: &mut String, n: u128)
    ensures
        final(out)@ == old(out)@ + dec_digits(n as nat),
    decreases n,
{
    if n >= 10 {
        append_dec(out, n / 10);
    }
    out.append(hex_char_str(n % 10));
    assert(out@ =~= old(out)@ + dec_digits(n as nat));
}

/// 16 to the power `k`.
pub open spec fn pow16(k: nat) -> nat
    decreases k,
{
    if k == 0 {
        1
    } else {
        16 * pow16((k - 1) as nat)
    }
}

/// A number below 16^k (k at least 1) has at most k hexadecimal digits.
proof fn lemma_hex_len_below(m: nat, k: nat)
    requires
        1 <= k,
        m < pow16(k),
    ensures
        hex_digits(m).len() <= k,
    decreases k,
{
    if m >= 16 {
        assert(pow16(1) == 16 * pow16(0));
        assert(k >= 2);
        assert(pow16(k) == 16 * pow16((k - 1) as nat));
        assert(m / 16 < pow16((k - 1) as nat));
        lemma_hex_len_below(m / 16, (k - 1) as nat);
    }
}

/// Number of hexadecimal digits of `n` (at most 32).
fn hex_len(n: u128) -> (len: usize)
    ensures
        len == hex_digits(n as nat).len(),
        len <= 32,
    decreases n,
{
    proof {
        assert(u128::MAX < pow16(32)) by {
            reveal_with_fuel(pow16, 33);
        }
        lemma_hex_len_below(n as nat, 32);
    }
    if n >= 16 {
        let l = hex_len(n / 16);
        l + 1
    } else {
        1
    }
}

/// The connect id for a clock reading in nanoseconds: its lowercase
/// hexadecimal digits, zero-padded to 16.
pub fn connect_id(nanos: u128) -> (id: String)
    ensures
        id@ == zero_padded(hex_digits(nanos as nat), 16),
{
    let len = hex_len(nanos);
    let zeros: usize = if len < 16 { 16 - len } else { 0 };
    let mut id = String::new();
    let mut i: usize = 0;
    while i < zeros
        invariant
            i <= zeros,
            id@ == Seq::new(i as nat, |k: int| '0'),
        decreases zeros - i,
    {
        proof {
            reveal_strlit("0");
        }
        id.append("0");
        i = i + 1;
        assert(id@ =~= Seq::new(i as nat, |k: int| '0'));
    }
    let ghost pad = id@;
    append_hex(&mut id, nanos);
    proof {
        if len >= 16 {
            assert(pad =~= Seq::<char>::empty());
            assert(id@ =~= hex_digits(nanos as nat));
        }
    }
    id
}

/// The session id for a clock reading in milliseconds: "s" and its
/// decimal digits.
pub fn session_id(millis: u128) -> (id: String)
    ensures
        id@ == seq!['s'] + dec_digits(millis as nat),
{
    proof {
        reveal_strlit("s");
    }
    let mut id = String::from_str("s");
    append_dec(&mut id, millis);
    id
}

} // verus!
