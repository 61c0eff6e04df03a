//! Text shown for tracks: an artist list and a duration.

use vstd::prelude::*;
use vstd::string::StringExecFns;

verus! {

/// The artists joined by `", "`.
pub open spec fn joined(names: Seq<Seq<char>>) -> Seq<char>
    decreases names.len(),
{
    if names.len() == 0 {
        Seq::empty()
    } else if names.len() == 1 {
        names[0]
    } else {
        joined(names.drop_last()) + seq![',', ' '] + names.last()
    }
}

/// The decimal digit for `d < 10`.
pub open spec fn digit_char(d: nat) -> char {
    if d == 0 {
        '0'
    } else if d == 1 {
        '1'
    } else if d == 2 {
        '2'
    } else if d == 3 {
        '3'
    } else if d == 4 {
        '4'
    } else if d == 5 {
        '5'
    } else if d == 6 {
        '6'
    } else if d == 7 {
        '7'
    } else if d == 8 {
        '8'
    } else {
        '9'
    }
}

/// `n` in decimal, without leading zeros.
pub open spec fn decimal(n: nat) -> Seq<char>
    decreases n,
{
    if n < 10 {
        seq![digit_char(n)]
    } else {
        decimal(n / 10).push(digit_char(n % 10))
    }
}

/// `n` in decimal, padded with a zero to at least two digits.
pub open spec fn padded2(n: nat) -> Seq<char> {
    if n < 10 {
        seq!['0', digit_char(n)]
    } else {
        decimal(n)
    }
}

/// How a duration of `ms` milliseconds is shown: `mm:ss`, or `h:mm:ss`
/// from a hundred minutes on.
pub open spec fn duration_text(ms: nat) -> Seq<char> {
    let secs = ms / 1000;
    let mins = secs / 60;
    if mins >= 100 {
        decimal(mins / 60) + seq![':'] + padded2(mins % 60) + seq![':'] + padded2(secs % 60)
    } else {
        padded2(mins) + seq![':'] + padded2(secs % 60)
    }
}

fn digit_str(d: u64) -> (s: &'static str)
    requires
        d < 10,
    ensures
        s@ == seq![digit_char(d as nat)],
{
    proof {
        reveal_strlit("0");
        reveal_strlit("1");
        reveal_strlit("2");
        reveal_strlit("3");
        reveal_strlit("4");
        reveal_strlit("5");
        reveal_strlit("6");
        reveal_strlit("7");
        reveal_strlit("8");
        reveal_strlit("9");
    }
    if d == 0 {
        "0"
    } else if d == 1 {
        "1"
    } else if d == 2 {
        "2"
    } else if d == 3 {
        "3"
    } else if d == 4 {
        "4"
    } else if d == 5 {
        "5"
    } else if d == 6 {
        "6"
    } else if d == 7 {
        "7"
    } else if d == 8 {
        "8"
    } else {
        "9"
    }
}

fn push_decimal(out: &mut String, n: u64)
    ensures
        final(out)@ == old(out)@ + decimal(n as nat),
    decreases n,
{
    if n >= 10 {
        push_decimal(out, n / 10);
    }
    out.append(digit_str(n % 10));
    assert(final(out)@ =~= old(out)@ + decimal(n as nat));
}

fn push_padded2(out: &mut String, n: u64)
    ensures
        final(out)@ == old(out)@ + padded2(n as nat),
{
    if n < 10 {
        proof {
            reveal_strlit("0");
        }
        out.append("0");
        out.append(digit_str(n));
        assert(final(out)@ =~= old(out)@ + padded2(n as nat));
    } else {
        push_decimal(out, n);
    }
}

/// The artists joined by `", "` (empty for no artist).
pub fn print_artists(artists: &Vec<String>) -> (s: String)
    ensures
        s@ == joined(artists@.map_values(|a: String| a@)),
{
    let ghost names = artists@.map_values(|a: String| a@);
    let mut txt = String::new();
    let mut i: usize = 0;
    while i < artists.len()
        invariant
            0 <= i <= artists@.len(),
            names == artists@.map_values(|a: String| a@),
            txt@ == joined(names.take(i as int)),
        decreases artists@.len() - i,
    {
        proof {
            reveal_strlit(", ");
        }
        if i > 0 {
            txt.append(", ");
        }
        txt.append(artists[i].as_str());
        assert(names.take(i as int + 1).drop_last() =~= names.take(i as int));
        assert(names.take(i as int + 1).last() == artists@[i as int]@);
        if i == 0 {
            assert(names.take(1)[0] == artists@[0]@);
        }
        assert(txt@ =~= joined(names.take(i as int + 1)));
        i = i + 1;
    }
    assert(names.take(artists@.len() as int) =~= names);
    txt
}

/// A duration of `duration` milliseconds as `mm:ss`, or as `h:mm:ss` from a
/// hundred minutes on.
pub fn print_duration(duration: u64) -> (s: String)
    ensures
        s@ == duration_text(duration as nat),
{
    let secs = duration / 1000;
    let mins = secs / 60;
    let mut txt = String::new();
    proof {
        reveal_strlit(":");
    }
    if mins >= 100 {
        push_decimal(&mut txt, mins / 60);
        txt.append(":");
        push_padded2(&mut txt, mins % 60);
        txt.append(":");
        push_padded2(&mut txt, secs % 60);
    } else {
        push_padded2(&mut txt, mins);
        txt.append(":");
        push_padded2(&mut txt, secs % 60);
    }
    assert(txt@ =~= duration_text(duration as nat));
    txt
}

} // verus!
