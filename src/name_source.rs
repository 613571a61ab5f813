use vstd::prelude::*;
use vstd::string::*;

verus! {

/// The decimal digit `d`, as a character.
pub open spec fn digit_char(d: nat) -> char {
    if d == 0 {
        '0'
    } else if d == 1 {
        '1'
    } else if d == 2 {
        '2'
    } else if d == 3 {
        '3'
    } else if d == 4 {
        '4'
    } else if d == 5 {
        '5'
    } else if d == 6 {
        '6'
    } else if d == 7 {
        '7'
    } else if d == 8 {
        '8'
    } else {
        '9'
    }
}

/// The decimal notation of `n`, without leading zeros.
pub open spec fn decimal(n: nat) -> Seq<char>
    decreases n,
{
    if n < 10 {
        seq![digit_char(n)]
    } else {
        decimal(n / 10).push(digit_char(n % 10))
    }
}

/// The name that a source whose counter is `n` makes from `seed`.
pub open spec fn fresh_name(seed: Seq<char>, n: nat) -> Seq<char> {
    seed + seq!['_'] + decimal(n)
}

fn digit_str(d: u64) -> (r: &'static str)
    requires
        d < 10,
    ensures
        r@ == seq![digit_char(d as nat)],
{
    proof {
        reveal_strlit("0");
        reveal_strlit("1");
        reveal_strlit("2");
        reveal_strlit("3");
        reveal_strlit("4");
        reveal_strlit("5");
        reveal_strlit("6");
        reveal_strlit("7");
        reveal_strlit("8");
        reveal_strlit("9");
    }
    let r = if d == 0 {
        "0"
    } else if d == 1 {
        "1"
    } else if d == 2 {
        "2"
    } else if d == 3 {
        "3"
    } else if d == 4 {
        "4"
    } else if d == 5 {
        "5"
    } else if d == 6 {
        "6"
    } else if d == 7 {
        "7"
    } else if d == 8 {
        "8"
    } else {
        "9"
    };
    proof {
        assert(r@ =~= seq![digit_char(d as nat)]);
    }
    r
}

/// Appends the decimal notation of `n` to `s`.
pub fn push_decimal(s: &mut String, n: u64)
    ensures
        final(s)@ == old(s)@ + decimal(n as nat),
    decreases n,
{
    if n < 10 {
        s.append(digit_str(n));
    } else {
        push_decimal(s, n / 10);
        s.append(digit_str(n % 10));
        proof {
            assert(decimal(n as nat) == decimal((n / 10) as nat).push(digit_char((n % 10) as nat)));
            assert(final(s)@ =~= old(s)@ + decimal(n as nat));
        }
    }
}

/// A supply of pairwise distinct names, for one inference session.
#[derive(Debug)]
pub struct NameSource {
    counter: u64,
}

impl View for NameSource {
    type V = nat;

    /// How many names the source has made.
    closed spec fn view(&self) -> nat {
        self.counter as nat
    }
}

impl NameSource {
    /// A source that has made no name yet.
    pub fn new() -> (r: NameSource)
        ensures
            r@ == 0,
    {
        NameSource { counter: 0 }
    }

    /// Whether the source can make no more names.
    pub fn exhausted(&self) -> (r: bool)
        ensures
            r == (self@ >= u64::MAX),
    {
        self.counter == u64::MAX
    }

    /// How many more names the source can make.
    pub fn remaining(&self) -> (r: u64)
        ensures
            r == u64::MAX - self@,
    {
        u64::MAX - self.counter
    }

    /// A new name `"{name}_{n}"`, where `n` counts the names made before.
    pub fn fresh(&mut self, name: &str) -> (r: String)
        requires
            old(self)@ < u64::MAX,
        ensures
            r@ == fresh_name(name@, old(self)@),
            final(self)@ == old(self)@ + 1,
    {
        let i = self.counter;
        self.counter = self.counter + 1;
        let mut s = String::from_str(name);
        proof {
            reveal_strlit("_");
        }
        s.append("_");
        push_decimal(&mut s, i);
        proof {
            assert(s@ =~= fresh_name(name@, i as nat));
        }
        s
    }
}

impl Default for NameSource {
    fn default() -> (r: NameSource)
        ensures
            r@ == 0,
    {
        NameSource::new()
    }
}

} // verus!
