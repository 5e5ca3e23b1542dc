//! Interned names.

use crate::index::Symbol;
use vstd::prelude::*;
use vstd::string::*;

verus! {

/// The table of names: a symbol is the position of its name.
pub struct Interner {
    names: Vec<String>,
}

pub open spec fn digit_value(c: char) -> Option<nat> {
    if c == '0' {
        Some(0)
    } else if c == '1' {
        Some(1)
    } else if c == '2' {
        Some(2)
    } else if c == '3' {
        Some(3)
    } else if c == '4' {
        Some(4)
    } else if c == '5' {
        Some(5)
    } else if c == '6' {
        Some(6)
    } else if c == '7' {
        Some(7)
    } else if c == '8' {
        Some(8)
    } else if c == '9' {
        Some(9)
    } else {
        None
    }
}

/// The number that a run of decimal digits writes; nothing for the empty
/// run and for a run that holds anything but digits.
pub open spec fn parse_nat(s: Seq<char>) -> Option<nat>
    decreases s.len(),
{
    if s.len() == 0 {
        None
    } else if s.len() == 1 {
        digit_value(s[0])
    } else {
        match (parse_nat(s.drop_last()), digit_value(s.last())) {
            (Some(n), Some(d)) => Some(10 * n + d),
            _ => None,
        }
    }
}

/// The position that a name writes, where it writes one that fits.
pub open spec fn parse_index(s: Seq<char>) -> Option<usize> {
    match parse_nat(s) {
        Some(n) => if n <= usize::MAX {
            Some(n as usize)
        } else {
            None
        },
        None => None,
    }
}

/// A run of digits writes no less than any run that it starts with.
pub proof fn lemma_parse_nat_grows(s: Seq<char>, k: int)
    requires
        0 < k <= s.len(),
        parse_nat(s) is Some,
    ensures
        parse_nat(s.take(k)) is Some,
        parse_nat(s.take(k))->Some_0 <= parse_nat(s)->Some_0,
    decreases s.len(),
{
    if k == s.len() {
        assert(s.take(k) =~= s);
    } else {
        assert(s.drop_last().take(k) =~= s.take(k));
        lemma_parse_nat_grows(s.drop_last(), k);
    }
}

fn digit_of(c: char) -> (d: Option<usize>)
    ensures
        d == match digit_value(c) {
            Some(v) => Some(v as usize),
            None => None,
        },
        d matches Some(v) ==> v <= 9,
{
    if c == '0' {
        Some(0)
    } else if c == '1' {
        Some(1)
    } else if c == '2' {
        Some(2)
    } else if c == '3' {
        Some(3)
    } else if c == '4' {
        Some(4)
    } else if c == '5' {
        Some(5)
    } else if c == '6' {
        Some(6)
    } else if c == '7' {
        Some(7)
    } else if c == '8' {
        Some(8)
    } else if c == '9' {
        Some(9)
    } else {
        None
    }
}

/// Reads a name as a position: a run of decimal digits whose number fits.
pub fn index_of_name(s: &str) -> (r: Option<usize>)
    ensures
        r == parse_index(s@),
{
    let n = s.unicode_len();
    if n == 0 {
        return None;
    }
    let mut acc: usize = 0;
    let mut i: usize = 0;
    while i < n
        invariant
            i <= n,
            n == s@.len(),
            i > 0 ==> parse_nat(s@.take(i as int)) == Some(acc as nat),
            i == 0 ==> acc == 0,
        decreases n - i,
    {
        let c = s.get_char(i);
        proof {
            assert(s@.take(i + 1).drop_last() =~= s@.take(i as int));
            assert(s@.take(i + 1).last() == s@[i as int]);
        }
        match digit_of(c) {
            None => {
                proof {
                    if parse_nat(s@) is Some {
                        lemma_parse_nat_grows(s@, i + 1);
                    }
                }
                return None;
            },
            Some(d) => {
                let next = match acc.checked_mul(10) {
                    Some(m) => m.checked_add(d),
                    None => None,
                };
                match next {
                    None => {
                        proof {
                            if parse_nat(s@) is Some {
                                lemma_parse_nat_grows(s@, i + 1);
                            }
                        }
                        return None;
                    },
                    Some(v) => {
                        acc = v;
                    },
                }
            },
        }
        i += 1;
    }
    proof {
        assert(s@.take(n as int) =~= s@);
    }
    Some(acc)
}

impl Interner {
    /// The names, by symbol.
    pub closed spec fn names(&self) -> Seq<Seq<char>> {
        Seq::new(self.names@.len(), |i: int| self.names@[i]@)
    }

    /// No name stands twice in the table.
    pub open spec fn wf(&self) -> bool {
        forall|i: int, j: int|
            0 <= i < self.names().len() && 0 <= j < self.names().len() && #[trigger] self.names()[i]
                == #[trigger] self.names()[j] ==> i == j
    }

    /// The name of a symbol.
    pub open spec fn name(&self, sym: Symbol) -> Seq<char> {
        self.names()[sym.0 as int]
    }

    pub open spec fn has(&self, sym: Symbol) -> bool {
        sym.0 < self.names().len()
    }

    /// The position that the name of a symbol writes; nothing for a symbol
    /// that the table does not hold.
    pub open spec fn spec_index_of(&self, sym: Symbol) -> Option<usize> {
        if self.has(sym) {
            parse_index(self.name(sym))
        } else {
            None
        }
    }

    pub fn new() -> (t: Interner)
        ensures
            t.wf(),
            t.names().len() == 0,
    {
        Interner { names: Vec::new() }
    }

    /// The symbol of a name: the one it has, or a new one.
    pub fn intern(&mut self, s: &str) -> (sym: Symbol)
        requires
            old(self).wf(),
        ensures
            final(self).wf(),
            final(self).has(sym),
            final(self).name(sym) == s@,
            old(self).names().contains(s@) ==> final(self).names() == old(self).names(),
            !old(self).names().contains(s@) ==> final(self).names() == old(self).names().push(s@),
    {
        let key = String::from_str(s);
        let mut i: usize = 0;
        while i < self.names.len()
            invariant
                i <= self.names.len(),
                self.names == old(self).names,
                self.wf(),
                key@ == s@,
                forall|j: int| 0 <= j < i ==> self.names()[j] != s@,
            decreases self.names.len() - i,
        {
            if self.names[i] == key {
                proof {
                    assert(self.names()[i as int] == s@);
                    assert(old(self).names().contains(s@));
                }
                return Symbol(i);
            }
            i += 1;
        }
        let sym = Symbol(self.names.len());
        self.names.push(key);
        proof {
            assert(self.names() =~= old(self).names().push(s@));
            assert(!old(self).names().contains(s@));
        }
        sym
    }

    /// The number of names.
    pub fn len(&self) -> (n: usize)
        ensures
            n == self.names().len(),
    {
        self.names.len()
    }

    /// The name of a symbol.
    pub fn get(&self, sym: Symbol) -> (s: &str)
        requires
            self.has(sym),
        ensures
            s@ == self.name(sym),
    {
        self.names[sym.0].as_str()
    }

    /// The position that the name of a symbol writes.
    pub fn index_of(&self, sym: Symbol) -> (r: Option<usize>)
        ensures
            r == self.spec_index_of(sym),
    {
        if sym.0 < self.names.len() {
            index_of_name(self.names[sym.0].as_str())
        } else {
            None
        }
    }
}

} // verus!
