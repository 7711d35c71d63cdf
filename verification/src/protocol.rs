//! The line protocol spoken with strategies that run as external programs.
//!
//! One request/response pair per decision: the request is one line holding
//! the length of the caller's own history and both histories as runs of `C`
//! and `D`, with `;` as the delimiter; the response is one line holding a
//! single `C` or `D` (surrounding whitespace ignored).  Anything else is a
//! protocol violation, never silently coerced to a default action.

use vstd::prelude::*;

use crate::rules::Choice;

verus! {

/// The letter an action is rendered as on the wire.
pub open spec fn spec_choice_letter(c: Choice) -> u8 {
    match c {
        Choice::Cooperate => 67u8,
        Choice::Defect => 68u8,
    }
}

/// A history rendered as one letter per round, in chronological order.
pub open spec fn spec_letters(h: Seq<Choice>) -> Seq<u8> {
    Seq::new(h.len(), |i: int| spec_choice_letter(h[i]))
}

/// A non-negative integer rendered as decimal digits, most significant
/// first.
pub open spec fn spec_decimal(n: nat) -> Seq<u8>
    decreases n,
{
    if n < 10 {
        seq![(48 + n) as u8]
    } else {
        spec_decimal(n / 10).push((48 + n % 10) as u8)
    }
}

/// One request line: own history length, own history, opponent history,
/// each separated by `;`, terminated by a newline.
pub open spec fn spec_request(own: Seq<Choice>, their: Seq<Choice>) -> Seq<u8> {
    spec_decimal(own.len()) + seq![59u8] + spec_letters(own) + seq![59u8] + spec_letters(their)
        + seq![10u8]
}

fn push_decimal(out: &mut Vec<u8>, n: usize)
    ensures
        final(out)@ == old(out)@ + spec_decimal(n as nat),
    decreases n,
{
    if n < 10 {
        out.push(48 + n as u8);
        proof {
            assert(out@ =~= old(out)@ + spec_decimal(n as nat));
        }
    } else {
        push_decimal(out, n / 10);
        out.push(48 + (n % 10) as u8);
        proof {
            assert(out@ =~= old(out)@ + spec_decimal(n as nat));
        }
    }
}

/// Turns an action into its wire letter.
pub fn choice_letter(c: Choice) -> (r: u8)
    ensures
        r == spec_choice_letter(c),
{
    match c {
        Choice::Cooperate => 67,
        Choice::Defect => 68,
    }
}

fn push_letters(out: &mut Vec<u8>, h: &Vec<Choice>)
    ensures
        final(out)@ == old(out)@ + spec_letters(h@),
{
    let mut i: usize = 0;
    while i < h.len()
        invariant
            i <= h@.len(),
            out@ == old(out)@ + spec_letters(h@.take(i as int)),
        decreases h@.len() - i,
    {
        let letter = choice_letter(h[i]);
        out.push(letter);
        i = i + 1;
        proof {
            assert(out@ =~= old(out)@ + spec_letters(h@.take(i as int)));
        }
    }
    proof {
        assert(h@.take(h@.len() as int) =~= h@);
    }
}

/// Builds the request line asking an external program for its next action,
/// given both histories accumulated so far.
pub fn format_request(your_history: &Vec<Choice>, their_history: &Vec<Choice>) -> (r: Vec<u8>)
    ensures
        r@ == spec_request(your_history@, their_history@),
{
    let mut out: Vec<u8> = Vec::new();
    push_decimal(&mut out, your_history.len());
    out.push(59);
    push_letters(&mut out, your_history);
    out.push(59);
    push_letters(&mut out, their_history);
    out.push(10);
    proof {
        assert(out@ =~= spec_request(your_history@, their_history@));
    }
    out
}

/// A response line that is not exactly one `C` or `D` after trimming.
#[derive(Copy, Clone, Debug, PartialEq, Eq, Structural)]
pub enum ProtocolError {
    /// The external program answered something other than `C` or `D`.
    InvalidResponse,
}

/// The bytes `str::trim` would strip: ASCII whitespace.
pub open spec fn spec_is_ws(b: u8) -> bool {
    b == 32 || b == 9 || b == 10 || b == 13
}

/// A byte string with its leading whitespace removed.
pub open spec fn spec_trim_front(s: Seq<u8>) -> Seq<u8>
    decreases s.len(),
{
    if s.len() > 0 && spec_is_ws(s.first()) {
        spec_trim_front(s.drop_first())
    } else {
        s
    }
}

/// A byte string with its trailing whitespace removed.
pub open spec fn spec_trim_back(s: Seq<u8>) -> Seq<u8>
    decreases s.len(),
{
    if s.len() > 0 && spec_is_ws(s.last()) {
        spec_trim_back(s.drop_last())
    } else {
        s
    }
}

/// A byte string with whitespace removed from both ends.
pub open spec fn spec_trimmed(s: Seq<u8>) -> Seq<u8> {
    spec_trim_back(spec_trim_front(s))
}

proof fn lemma_trim_front_is_suffix(s: Seq<u8>, i: int)
    requires
        0 <= i <= s.len(),
        forall|k: int| 0 <= k < i ==> spec_is_ws(#[trigger] s[k]),
        i == s.len() || !spec_is_ws(s[i]),
    ensures
        spec_trim_front(s) == s.subrange(i, s.len() as int),
    decreases i,
{
    if i == 0 {
        assert(s.subrange(0, s.len() as int) =~= s);
        if s.len() > 0 {
            assert(!spec_is_ws(s.first()));
        }
    } else {
        assert(spec_is_ws(s.first()));
        let rest = s.drop_first();
        assert forall|k: int| 0 <= k < i - 1 implies spec_is_ws(#[trigger] rest[k]) by {
            assert(rest[k] == s[k + 1]);
        }
        if i - 1 < rest.len() {
            assert(rest[i - 1] == s[i]);
        }
        lemma_trim_front_is_suffix(rest, i - 1);
        assert(rest.subrange(i - 1, rest.len() as int) =~= s.subrange(i, s.len() as int));
    }
}

proof fn lemma_trim_back_is_prefix(s: Seq<u8>, j: int)
    requires
        0 <= j <= s.len(),
        forall|k: int| j <= k < s.len() ==> spec_is_ws(#[trigger] s[k]),
        j == 0 || !spec_is_ws(s[j - 1]),
    ensures
        spec_trim_back(s) == s.subrange(0, j),
    decreases s.len(),
{
    if j == s.len() {
        if s.len() > 0 {
            assert(!spec_is_ws(s.last()));
        }
        assert(s.subrange(0, j) =~= s);
    } else {
        assert(spec_is_ws(s.last()));
        let rest = s.drop_last();
        assert forall|k: int| j <= k < rest.len() implies spec_is_ws(#[trigger] rest[k]) by {
            assert(rest[k] == s[k]);
        }
        lemma_trim_back_is_prefix(rest, j);
        assert(rest.subrange(0, j) =~= s.subrange(0, j));
    }
}

/// Parses one response line from an external program: exactly one `C` or
/// `D` once surrounding whitespace is trimmed.  Anything else is a fatal
/// protocol violation, raised as an error rather than defaulted.
pub fn parse_response(line: &Vec<u8>) -> (r: Result<Choice, ProtocolError>)
    ensures
        r == Ok::<Choice, ProtocolError>(Choice::Cooperate) <==> spec_trimmed(line@) == seq![67u8],
        r == Ok::<Choice, ProtocolError>(Choice::Defect) <==> spec_trimmed(line@) == seq![68u8],
        r == Err::<Choice, ProtocolError>(ProtocolError::InvalidResponse) <==> !(spec_trimmed(
            line@,
        ) == seq![67u8] || spec_trimmed(line@) == seq![68u8]),
{
    let n = line.len();
    let mut i: usize = 0;
    while i < n && is_ws(line[i])
        invariant
            i <= n,
            n == line@.len(),
            forall|k: int| 0 <= k < i ==> spec_is_ws(#[trigger] line@[k]),
        decreases n - i,
    {
        i = i + 1;
    }
    let mut j: usize = n;
    while j > i && is_ws(line[j - 1])
        invariant
            i <= j <= n,
            n == line@.len(),
            forall|k: int| 0 <= k < i ==> spec_is_ws(#[trigger] line@[k]),
            forall|k: int| j <= k < n ==> spec_is_ws(#[trigger] line@[k]),
        decreases j,
    {
        j = j - 1;
    }
    proof {
        lemma_trim_front_is_suffix(line@, i as int);
        let tail = line@.subrange(i as int, n as int);
        if j == i {
            assert forall|k: int| 0 <= k < tail.len() implies spec_is_ws(#[trigger] tail[k]) by {
                assert(tail[k] == line@[k + i]);
            }
            lemma_trim_back_is_prefix(tail, 0);
            assert(spec_trimmed(line@) =~= line@.subrange(i as int, i as int));
            assert(spec_trimmed(line@).len() == 0);
        } else {
            assert(!spec_is_ws(line@[j - 1]));
            assert forall|k: int| j - i <= k < tail.len() implies spec_is_ws(#[trigger] tail[k]) by {
                assert(tail[k] == line@[k + i]);
            }
            assert(tail[j - i - 1] == line@[j - 1]);
            lemma_trim_back_is_prefix(tail, j - i);
            assert(spec_trimmed(line@) =~= line@.subrange(i as int, j as int));
        }
    }
    if j == i || j - i > 1 {
        proof {
            if j - i > 1 {
                assert(spec_trimmed(line@).len() == j - i);
            }
        }
        return Err(ProtocolError::InvalidResponse);
    }
    let b = line[i];
    proof {
        assert(spec_trimmed(line@) =~= seq![line@[i as int]]);
    }
    if b == 67 {
        Ok(Choice::Cooperate)
    } else if b == 68 {
        Ok(Choice::Defect)
    } else {
        Err(ProtocolError::InvalidResponse)
    }
}

fn is_ws(b: u8) -> (r: bool)
    ensures
        r == spec_is_ws(b),
{
    b == 32 || b == 9 || b == 10 || b == 13
}

} // verus!
