//! Read and write counters kept beside a store, and their text.

use vstd::prelude::*;
use vstd::string::StringExecFns;

verus! {

/// The decimal digits of `n`.
pub open spec fn decimal(n: nat) -> Seq<char>
    decreases n,
{
    if n < 10 {
        seq![digit_char(n)]
    } else {
        decimal(n / 10) + seq![digit_char(n % 10)]
    }
}

pub open spec fn digit_char(d: nat) -> char {
    ((d + 48) as u8) as char
}

/// The summary that `stats` returns.
pub open spec fn stats_text(reads: nat, writes: nat) -> Seq<char> {
    seq!['R', 'e', 'a', 'd', 's', ':', ' '] + decimal(reads) + seq![
        ',',
        ' ',
        'w',
        'r',
        'i',
        't',
        'e',
        's',
        ':',
        ' ',
    ] + decimal(writes)
}

/// One more than `n`, held at the largest count a counter can hold.
pub open spec fn counted(n: nat) -> nat {
    if n < usize::MAX {
        n + 1
    } else {
        n
    }
}

fn digit_str(d: usize) -> (r: &'static str)
    requires
        d < 10,
    ensures
        r@ == seq![digit_char(d as nat)],
{
    proof {
        reveal_strlit("0");
        reveal_strlit("1");
        reveal_strlit("2");
        reveal_strlit("3");
        reveal_strlit("4");
        reveal_strlit("5");
        reveal_strlit("6");
        reveal_strlit("7");
        reveal_strlit("8");
        reveal_strlit("9");
    }
    match d {
        0 => "0",
        1 => "1",
        2 => "2",
        3 => "3",
        4 => "4",
        5 => "5",
        6 => "6",
        7 => "7",
        8 => "8",
        _ => "9",
    }
}

/// Appends the decimal digits of `n`.
fn push_decimal(out: &mut String, n: usize)
    ensures
        final(out)@ == old(out)@ + decimal(n as nat),
    decreases n,
{
    if n >= 10 {
        push_decimal(out, n / 10);
    }
    out.append(digit_str(n % 10));
    assert(final(out)@ =~= old(out)@ + decimal(n as nat));
}

/// How many reads and writes a store has made of the underlying records.
pub struct Counters {
    reads: usize,
    writes: usize,
}

impl Counters {
    pub closed spec fn spec_reads(&self) -> nat {
        self.reads as nat
    }

    pub closed spec fn spec_writes(&self) -> nat {
        self.writes as nat
    }

    pub fn new() -> (r: Self)
        ensures
            r.spec_reads() == 0,
            r.spec_writes() == 0,
    {
        Counters { reads: 0, writes: 0 }
    }

    pub fn reads(&self) -> (r: usize)
        ensures
            r == self.spec_reads(),
    {
        self.reads
    }

    pub fn writes(&self) -> (r: usize)
        ensures
            r == self.spec_writes(),
    {
        self.writes
    }

    pub fn count_read(&mut self)
        ensures
            final(self).spec_reads() == counted(old(self).spec_reads()),
            final(self).spec_writes() == old(self).spec_writes(),
    {
        self.reads = self.reads.saturating_add(1);
    }

    pub fn count_write(&mut self)
        ensures
            final(self).spec_reads() == old(self).spec_reads(),
            final(self).spec_writes() == counted(old(self).spec_writes()),
    {
        self.writes = self.writes.saturating_add(1);
    }

    pub fn clear(&mut self)
        ensures
            final(self).spec_reads() == 0,
            final(self).spec_writes() == 0,
    {
        self.reads = 0;
        self.writes = 0;
    }

    /// `Reads: <reads>, writes: <writes>`.
    pub fn text(&self) -> (r: String)
        ensures
            r@ == stats_text(self.spec_reads(), self.spec_writes()),
    {
        proof {
            reveal_strlit("Reads: ");
            reveal_strlit(", writes: ");
        }
        let mut out = String::from_str("Reads: ");
        push_decimal(&mut out, self.reads);
        out.append(", writes: ");
        push_decimal(&mut out, self.writes);
        assert(out@ =~= stats_text(self.spec_reads(), self.spec_writes()));
        out
    }
}

} // verus!
