//! Translates an infix sum of single digits, such as `1-2+3`, into postfix
//! form, such as `12-3+`.
use vstd::prelude::*;

verus! {

pub open spec fn is_digit(c: char) -> bool {
    '0' <= c && c <= '9'
}

pub open spec fn is_op(c: char) -> bool {
    c == '+' || c == '-'
}

/// A digit, then any number of operator-digit pairs.
pub open spec fn well_formed(s: Seq<char>) -> bool {
    &&& s.len() % 2 == 1
    &&& forall|i: int|
        0 <= i < s.len() ==> if i % 2 == 0 {
            is_digit(#[trigger] s[i])
        } else {
            is_op(s[i])
        }
}

/// The postfix form of a well-formed expression: the first digit, then each
/// following digit with its operator after it.
pub open spec fn postfix(s: Seq<char>) -> Seq<char>
    decreases s.len(),
{
    if s.len() < 3 {
        s
    } else {
        postfix(s.subrange(0, s.len() - 2)) + seq![s[s.len() - 1], s[s.len() - 2]]
    }
}

/// Relies on String::push: appends the character at the end of the string.
#[verifier::external_body]
fn push_char(s: &mut String, c: char)
    ensures
        final(s)@ == old(s)@.push(c),
{
    s.push(c);
}

/// Reads an infix expression one character at a time.
pub struct Interpreter {
    chars: Vec<char>,
    pos: usize,
}

impl Interpreter {
    /// The characters not read yet.
    pub closed spec fn remaining(&self) -> Seq<char> {
        self.chars@.subrange(self.pos as int, self.chars@.len() as int)
    }

    pub closed spec fn inv(&self) -> bool {
        self.pos <= self.chars@.len()
    }

    pub fn new(infix: &str) -> (r: Interpreter)
        ensures
            r.inv(),
            r.remaining() == infix@,
    {
        let n = infix.unicode_len();
        let mut chars: Vec<char> = Vec::new();
        let mut i: usize = 0;
        while i < n
            invariant
                n == infix@.len(),
                i <= n,
                chars@ == infix@.subrange(0, i as int),
            decreases n - i,
        {
            chars.push(infix.get_char(i));
            i = i + 1;
            assert(chars@ =~= infix@.subrange(0, i as int));
        }
        assert(chars@ =~= infix@);
        Interpreter { chars, pos: 0 }
    }

    /// Whether what is left to read is a well-formed expression.
    pub fn is_valid(&self) -> (r: bool)
        requires
            self.inv(),
        ensures
            r == well_formed(self.remaining()),
    {
        let total = self.chars.len();
        let n = total - self.pos;
        if n % 2 == 0 {
            return false;
        }
        let mut i: usize = 0;
        while i < n
            invariant
                self.inv(),
                n == self.remaining().len(),
                total == self.chars@.len(),
                n == total - self.pos,
                n % 2 == 1,
                i <= n,
                forall|j: int|
                    0 <= j < i ==> if j % 2 == 0 {
                        is_digit(#[trigger] self.remaining()[j])
                    } else {
                        is_op(self.remaining()[j])
                    },
            decreases n - i,
        {
            let c = self.chars[self.pos + i];
            assert(c == self.remaining()[i as int]);
            if i % 2 == 0 {
                if !('0' <= c && c <= '9') {
                    return false;
                }
            } else if !(c == '+' || c == '-') {
                return false;
            }
            i = i + 1;
        }
        true
    }

    fn next_char(&mut self) -> (r: Option<char>)
        requires
            old(self).inv(),
        ensures
            final(self).inv(),
            final(self).chars == old(self).chars,
            old(self).remaining().len() == 0 ==> r is None && final(self).pos == old(self).pos,
            old(self).remaining().len() > 0 ==> r == Some(old(self).remaining()[0])
                && final(self).pos == old(self).pos + 1,
    {
        if self.pos < self.chars.len() {
            let c = self.chars[self.pos];
            self.pos = self.pos + 1;
            Some(c)
        } else {
            None
        }
    }

    /// Translates what is left to read and appends the postfix form to `out`.
    pub fn interpret(&mut self, out: &mut String)
        requires
            old(self).inv(),
            well_formed(old(self).remaining()),
        ensures
            final(self).inv(),
            final(self).remaining().len() == 0,
            final(out)@ == old(out)@ + postfix(old(self).remaining()),
    {
        let ghost s = self.remaining();
        let ghost start = self.pos;
        self.term(out);
        assert(postfix(s.subrange(0, 1)) == s.subrange(0, 1));
        assert(out@ =~= old(out)@ + postfix(s.subrange(0, 1)));
        while self.pos < self.chars.len()
            invariant
                self.inv(),
                start <= self.pos,
                self.chars@.len() - start == s.len(),
                well_formed(s),
                forall|j: int| 0 <= j < s.len() ==> #[trigger] s[j] == self.chars@[start + j],
                (self.pos - start) % 2 == 1,
                out@ == old(out)@ + postfix(s.subrange(0, self.pos - start)),
            decreases self.chars@.len() - self.pos,
        {
            let ghost k = self.pos - start;
            let op = self.next_char().unwrap();
            assert(op == s[k]);
            assert(is_op(s[k]));
            assert(k + 1 < s.len());
            assert(self.remaining()[0] == s[k + 1]);
            assert(is_digit(s[k + 1]));
            self.term(out);
            push_char(out, op);
            proof {
                let t = s.subrange(0, k + 2);
                assert(t.subrange(0, t.len() - 2) =~= s.subrange(0, k));
                assert(out@ =~= old(out)@ + postfix(t));
            }
        }
        assert(s.subrange(0, s.len() as int) =~= s);
    }

    /// Reads one digit and appends it to `out`.
    fn term(&mut self, out: &mut String)
        requires
            old(self).inv(),
            old(self).remaining().len() > 0,
            is_digit(old(self).remaining()[0]),
        ensures
            final(self).inv(),
            final(self).chars == old(self).chars,
            final(self).pos == old(self).pos + 1,
            final(out)@ == old(out)@.push(old(self).remaining()[0]),
    {
        let ch = self.next_char().unwrap();
        push_char(out, ch);
    }
}

} // verus!
