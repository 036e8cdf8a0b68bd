//! Primitive combinators: the parse cursor, whitespace skipping, digit-run
//! extraction, and digit-run-to-number conversion.
//!
//! Every grammar element is written against these few operations, so that
//! token extraction and backtracking behave the same way everywhere.

use vstd::prelude::*;

verus! {

/// Insignificant whitespace that may precede any token.
pub open spec fn is_space_char(c: char) -> bool {
    c == ' ' || c == '\t' || c == '\n' || c == '\r'
}

/// An ASCII decimal digit.
pub open spec fn is_digit_char(c: char) -> bool {
    '0' as int <= c as int && c as int <= '9' as int
}

/// The numeric value of an ASCII decimal digit.
pub open spec fn digit_val(c: char) -> nat
    recommends
        is_digit_char(c),
{
    (c as int - '0' as int) as nat
}

/// Every character of `s` is an ASCII decimal digit.
pub open spec fn all_digits(s: Seq<char>) -> bool {
    forall|i: int| 0 <= i < s.len() ==> is_digit_char(s[i])
}

/// Length of the longest whitespace prefix of `s`.
pub open spec fn ws_len(s: Seq<char>) -> nat
    decreases s.len(),
{
    if s.len() > 0 && is_space_char(s[0]) {
        1 + ws_len(s.skip(1))
    } else {
        0
    }
}

/// Length of the longest decimal-digit prefix of `s`.
pub open spec fn digit_run_len(s: Seq<char>) -> nat
    decreases s.len(),
{
    if s.len() > 0 && is_digit_char(s[0]) {
        1 + digit_run_len(s.skip(1))
    } else {
        0
    }
}

/// The number denoted by a run of decimal digits, most significant first.
pub open spec fn seq_to_nat(s: Seq<char>) -> nat
    recommends
        all_digits(s),
    decreases s.len(),
{
    if s.len() == 0 {
        0
    } else {
        seq_to_nat(s.drop_last()) * 10 + digit_val(s.last())
    }
}

/// Ten to the power `n`.
pub open spec fn pow10(n: nat) -> nat
    decreases n,
{
    if n == 0 {
        1
    } else {
        10 * pow10((n - 1) as nat)
    }
}

/// `ws_len` is the length of a whitespace prefix followed by a non-space
/// character (or the end of the sequence).
pub proof fn lemma_ws_len_spec(s: Seq<char>)
    ensures
        ws_len(s) <= s.len(),
        forall|i: int| 0 <= i < ws_len(s) ==> is_space_char(s[i]),
        ws_len(s) < s.len() ==> !is_space_char(s[ws_len(s) as int]),
    decreases s.len(),
{
    if s.len() > 0 && is_space_char(s[0]) {
        lemma_ws_len_spec(s.skip(1));
        assert forall|i: int| 0 <= i < ws_len(s) implies is_space_char(s[i]) by {
            if i > 0 {
                assert(s.skip(1)[i - 1] == s[i]);
            }
        }
        if ws_len(s) < s.len() {
            assert(s.skip(1)[ws_len(s) - 1] == s[ws_len(s) as int]);
        }
    }
}

/// A sequence whose first `k` characters are whitespace and whose `k`-th
/// character (if any) is not has whitespace-prefix length exactly `k`.
pub proof fn lemma_ws_len_is(s: Seq<char>, k: int)
    requires
        0 <= k <= s.len(),
        forall|i: int| 0 <= i < k ==> is_space_char(s[i]),
        k < s.len() ==> !is_space_char(s[k]),
    ensures
        ws_len(s) == k,
    decreases s.len(),
{
    if k == 0 {
    } else {
        assert(is_space_char(s[0]));
        assert forall|i: int| 0 <= i < k - 1 implies is_space_char(s.skip(1)[i]) by {
            assert(s.skip(1)[i] == s[i + 1]);
        }
        if k - 1 < s.skip(1).len() {
            assert(s.skip(1)[k - 1] == s[k]);
        }
        lemma_ws_len_is(s.skip(1), k - 1);
    }
}

/// A sequence whose first `k` characters are digits and whose `k`-th
/// character (if any) is not has digit-run length exactly `k`.
pub proof fn lemma_digit_run_is(s: Seq<char>, k: int)
    requires
        0 <= k <= s.len(),
        forall|i: int| 0 <= i < k ==> is_digit_char(s[i]),
        k < s.len() ==> !is_digit_char(s[k]),
    ensures
        digit_run_len(s) == k,
    decreases s.len(),
{
    if k == 0 {
    } else {
        assert(is_digit_char(s[0]));
        assert forall|i: int| 0 <= i < k - 1 implies is_digit_char(s.skip(1)[i]) by {
            assert(s.skip(1)[i] == s[i + 1]);
        }
        if k - 1 < s.skip(1).len() {
            assert(s.skip(1)[k - 1] == s[k]);
        }
        lemma_digit_run_is(s.skip(1), k - 1);
    }
}

/// A run of `n` digits denotes a number below ten to the `n`.
pub proof fn lemma_seq_to_nat_bound(s: Seq<char>)
    requires
        all_digits(s),
    ensures
        seq_to_nat(s) < pow10(s.len()),
    decreases s.len(),
{
    if s.len() > 0 {
        assert(all_digits(s.drop_last()));
        lemma_seq_to_nat_bound(s.drop_last());
        assert(is_digit_char(s.last()));
        assert(digit_val(s.last()) <= 9);
    }
}

/// Extending a digit prefix by one digit multiplies its value by ten and
/// adds the new digit.
pub proof fn lemma_seq_to_nat_take_succ(s: Seq<char>, i: int)
    requires
        0 <= i < s.len(),
    ensures
        seq_to_nat(s.take(i + 1)) == seq_to_nat(s.take(i)) * 10 + digit_val(s[i]),
{
    assert(s.take(i + 1).drop_last() =~= s.take(i));
    assert(s.take(i + 1).last() == s[i]);
}

/// Skipping `a` characters and then `b` more is skipping `a + b` at once.
pub proof fn lemma_skip_skip(s: Seq<char>, a: int, b: int)
    requires
        0 <= a,
        0 <= b,
        a + b <= s.len(),
    ensures
        s.skip(a).skip(b) == s.skip(a + b),
{
    assert(s.skip(a).skip(b) =~= s.skip(a + b));
}

/// Whether `c` is insignificant whitespace.
pub fn is_space(c: char) -> (b: bool)
    ensures
        b == is_space_char(c),
{
    c == ' ' || c == '\t' || c == '\n' || c == '\r'
}

/// Whether `c` is an ASCII decimal digit.
pub fn is_digit(c: char) -> (b: bool)
    ensures
        b == is_digit_char(c),
{
    let u = c as u32;
    48 <= u && u <= 57
}

/// The mutable "remaining input" view threaded through every element parser.
///
/// A cursor holds the whole input and the position of the first unconsumed
/// character. An element parser advances the position past exactly the token
/// it consumed; on a recoverable mismatch it restores the position it was
/// given, so the caller may try another grammar alternative.
pub struct Cursor {
    chars: Vec<char>,
    pos: usize,
}

impl Cursor {
    /// The whole input this cursor reads.
    pub closed spec fn text(&self) -> Seq<char> {
        self.chars@
    }

    /// How many characters have been consumed.
    pub closed spec fn position(&self) -> int {
        self.pos as int
    }

    /// The position never runs past the end of the input.
    pub open spec fn wf(&self) -> bool {
        0 <= self.position() <= self.text().len()
    }

    /// The unconsumed rest of the input.
    pub open spec fn remaining(&self) -> Seq<char> {
        self.text().skip(self.position())
    }

    /// Builds a cursor over `s`, positioned at its start.
    pub fn new(s: &str) -> (c: Cursor)
        ensures
            c.wf(),
            c.text() == s@,
            c.position() == 0,
    {
        let n = s.unicode_len();
        let mut chars: Vec<char> = Vec::new();
        let mut i: usize = 0;
        while i < n
            invariant
                i <= n,
                n == s@.len(),
                chars@ == s@.take(i as int),
            decreases n - i,
        {
            chars.push(s.get_char(i));
            proof {
                assert(chars@ =~= s@.take(i + 1));
            }
            i += 1;
        }
        proof {
            assert(chars@ =~= s@);
        }
        Cursor { chars, pos: 0 }
    }

    /// The current position, for later restoration or for diagnostics.
    pub fn pos(&self) -> (p: usize)
        ensures
            p == self.position(),
    {
        self.pos
    }

    /// Moves the cursor back to an earlier position `p`, undoing the
    /// consumption done since `p` was read off the cursor.
    pub fn reset(&mut self, p: usize)
        requires
            old(self).wf(),
            p <= old(self).text().len(),
        ensures
            final(self).wf(),
            final(self).text() == old(self).text(),
            final(self).position() == p,
    {
        self.pos = p;
    }

    /// If the next character is exactly `c`, consumes it.
    pub fn eat_char(&mut self, c: char) -> (b: bool)
        requires
            old(self).wf(),
        ensures
            final(self).wf(),
            final(self).text() == old(self).text(),
            b == (old(self).remaining().len() > 0 && old(self).remaining()[0] == c),
            b ==> final(self).position() == old(self).position() + 1,
            !b ==> final(self).position() == old(self).position(),
    {
        if self.pos < self.chars.len() && self.chars[self.pos] == c {
            proof {
                assert(old(self).remaining()[0] == old(self).text()[old(self).position()]);
            }
            self.pos = self.pos + 1;
            true
        } else {
            proof {
                if old(self).remaining().len() > 0 {
                    assert(old(self).remaining()[0] == old(self).text()[old(self).position()]);
                }
            }
            false
        }
    }

    /// Discards leading insignificant whitespace, consuming nothing else.
    pub fn skip_whitespace(&mut self)
        requires
            old(self).wf(),
        ensures
            final(self).wf(),
            final(self).text() == old(self).text(),
            final(self).position() == old(self).position() + ws_len(old(self).remaining()),
    {
        let ghost rem = old(self).remaining();
        let start = self.pos;
        while self.pos < self.chars.len() && is_space(self.chars[self.pos])
            invariant
                self.chars@ == old(self).chars@,
                start == old(self).pos,
                start <= self.pos <= self.chars@.len(),
                forall|i: int| start <= i < self.pos ==> is_space_char(self.chars@[i]),
            decreases self.chars@.len() - self.pos,
        {
            self.pos = self.pos + 1;
        }
        proof {
            assert forall|i: int| 0 <= i < self.pos - start implies is_space_char(rem[i]) by {
                assert(rem[i] == old(self).text()[old(self).position() + i]);
            }
            if self.pos - start < rem.len() {
                assert(rem[self.pos - start] == old(self).text()[self.position()]);
            }
            lemma_ws_len_is(rem, self.pos - start);
        }
    }

    /// Consumes the longest run of decimal digits at the cursor, possibly
    /// empty, and returns it.
    pub fn take_digits(&mut self) -> (digits: Vec<char>)
        requires
            old(self).wf(),
        ensures
            final(self).wf(),
            final(self).text() == old(self).text(),
            digits@ == old(self).remaining().take(digit_run_len(old(self).remaining()) as int),
            digits@.len() == digit_run_len(old(self).remaining()),
            all_digits(digits@),
            final(self).position() == old(self).position() + digit_run_len(old(self).remaining()),
    {
        let ghost rem = old(self).remaining();
        let start = self.pos;
        let mut digits: Vec<char> = Vec::new();
        while self.pos < self.chars.len() && is_digit(self.chars[self.pos])
            invariant
                self.chars@ == old(self).chars@,
                start == old(self).pos,
                start <= self.pos <= self.chars@.len(),
                digits@ == self.chars@.subrange(start as int, self.pos as int),
                forall|i: int| start <= i < self.pos ==> is_digit_char(self.chars@[i]),
            decreases self.chars@.len() - self.pos,
        {
            digits.push(self.chars[self.pos]);
            proof {
                assert(digits@ =~= self.chars@.subrange(start as int, self.pos + 1));
            }
            self.pos = self.pos + 1;
        }
        proof {
            let k = self.pos - start;
            assert forall|i: int| 0 <= i < k implies is_digit_char(rem[i]) by {
                assert(rem[i] == old(self).text()[old(self).position() + i]);
            }
            if k < rem.len() {
                assert(rem[k] == old(self).text()[self.position()]);
            }
            lemma_digit_run_is(rem, k);
            assert(digits@ =~= rem.take(k));
        }
        digits
    }
}

/// Reads a run of decimal digits as a number, reporting `None` when the
/// value does not fit in a `u32`.
pub fn chars_to_u32(digits: &Vec<char>) -> (r: Option<u32>)
    requires
        all_digits(digits@),
    ensures
        r == (if seq_to_nat(digits@) <= u32::MAX {
            Some(seq_to_nat(digits@) as u32)
        } else {
            None::<u32>
        }),
{
    let mut acc: u64 = 0;
    let mut overflow = false;
    let mut i: usize = 0;
    while i < digits.len()
        invariant
            all_digits(digits@),
            i <= digits@.len(),
            !overflow ==> acc == seq_to_nat(digits@.take(i as int)) && acc <= u32::MAX,
            overflow ==> seq_to_nat(digits@.take(i as int)) > u32::MAX,
        decreases digits@.len() - i,
    {
        let c = digits[i];
        assert(is_digit_char(c));
        let d: u64 = (c as u32 - 48) as u64;
        proof {
            lemma_seq_to_nat_take_succ(digits@, i as int);
        }
        if !overflow {
            let next: u64 = acc * 10 + d;
            if next > (u32::MAX as u64) {
                overflow = true;
            } else {
                acc = next;
            }
        }
        i += 1;
    }
    proof {
        assert(digits@.take(digits@.len() as int) =~= digits@);
    }
    if overflow {
        None
    } else {
        Some(acc as u32)
    }
}

} // verus!
