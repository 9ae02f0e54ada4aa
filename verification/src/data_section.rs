//! The writable-data table: string constants collected for the object
//! file's data section, each under a generated name `str0`, `str1`, ... in
//! order of appearance.

use vstd::prelude::*;
use vstd::string::StringExecFns;
use crate::escape::string_push_char;
use crate::value::{Value, ValV};

verus! {

/// The decimal digit characters of a number, most significant first.
pub open spec fn dec_digits(n: nat) -> Seq<char>
    decreases n,
{
    if n < 10 {
        seq![digit_char_spec(n)]
    } else {
        dec_digits(n / 10).push(digit_char_spec(n % 10))
    }
}

/// The character of one decimal digit.
pub open spec fn digit_char_spec(d: nat) -> char {
    if d == 0 {
        '0'
    } else if d == 1 {
        '1'
    } else if d == 2 {
        '2'
    } else if d == 3 {
        '3'
    } else if d == 4 {
        '4'
    } else if d == 5 {
        '5'
    } else if d == 6 {
        '6'
    } else if d == 7 {
        '7'
    } else if d == 8 {
        '8'
    } else {
        '9'
    }
}

/// Executable form of `digit_char_spec` for one digit.
fn digit_char(d: u64) -> (r: char)
    requires
        d < 10,
    ensures
        r == digit_char_spec(d as nat),
{
    match d {
        0 => '0',
        1 => '1',
        2 => '2',
        3 => '3',
        4 => '4',
        5 => '5',
        6 => '6',
        7 => '7',
        8 => '8',
        _ => '9',
    }
}

/// Appends the decimal form of a number to a string.
fn push_dec(s: &mut String, v: u64)
    ensures
        final(s)@ == old(s)@ + dec_digits(v as nat),
    decreases v,
{
    if v < 10 {
        string_push_char(s, digit_char(v));
        proof {
            assert(final(s)@ =~= old(s)@ + dec_digits(v as nat));
        }
    } else {
        push_dec(s, v / 10);
        string_push_char(s, digit_char(v % 10));
        proof {
            assert(final(s)@ =~= old(s)@ + dec_digits(v as nat));
        }
    }
}

/// An ordered table of named string data destined for the object file's
/// data section. Names are generated from a counter, so every entry's name
/// is fresh.
#[derive(Debug)]
pub struct DataSection {
    dotdata: Vec<(String, Value)>,
    counter: u64,
}

impl View for DataSection {
    type V = Seq<(Seq<char>, ValV)>;

    closed spec fn view(&self) -> Seq<(Seq<char>, ValV)> {
        self.dotdata@.map(|i: int, p: (String, Value)| (p.0@, p.1@))
    }
}

impl DataSection {
    /// How many entries have been generated over this instance's lifetime.
    pub closed spec fn count(&self) -> u64 {
        self.counter
    }

    pub fn new() -> (r: DataSection)
        ensures
            r@ == Seq::<(Seq<char>, ValV)>::empty(),
            r.count() == 0,
    {
        let r = DataSection { dotdata: Vec::new(), counter: 0 };
        proof {
            assert(r@ =~= Seq::<(Seq<char>, ValV)>::empty());
        }
        r
    }

    /// Appends a string under the next generated name `str<counter>`.
    pub fn append_string(&mut self, s: String)
        requires
            old(self).count() < u64::MAX,
        ensures
            final(self)@ == old(self)@.push(
                (seq!['s', 't', 'r'] + dec_digits(old(self).count() as nat), ValV::Str(s@)),
            ),
            final(self).count() == old(self).count() + 1,
    {
        let mut name = String::from_str("str");
        proof {
            reveal_strlit("str");
            assert(name@ =~= seq!['s', 't', 'r']);
        }
        push_dec(&mut name, self.counter);
        let ghost nv = name@;
        self.dotdata.push((name, Value::Str(s)));
        self.counter = self.counter + 1;
        proof {
            assert(final(self)@ =~= old(self)@.push((nv, ValV::Str(s@))));
        }
    }

    /// The table as collected so far.
    pub fn return_data(&self) -> (r: &Vec<(String, Value)>)
        ensures
            r@.map(|i: int, p: (String, Value)| (p.0@, p.1@)) == self@,
    {
        &self.dotdata
    }
}

} // verus!
