//! The virtual operating system that a program runs against: the text on
//! its standard input, the text it has written, and its arguments.

use vstd::prelude::*;
use vstd::string::StringExecFns;
use vstd::string::StrSliceExecFns;

verus! {

/// The virtual operating system.
#[derive(Debug, PartialEq, Eq)]
pub struct Os {
    /// The whole of the standard input.
    pub input: String,
    /// How many characters of the input have been read.
    pub pos: usize,
    /// What has been written to the standard output.
    pub output: String,
    /// The arguments of the program.
    pub args: Vec<String>,
}

/// The mathematical value of the virtual operating system.
pub struct OsM {
    /// The input that has been read.
    pub read: Seq<char>,
    /// The input that is still to be read.
    pub input: Seq<char>,
    /// What has been written to the standard output.
    pub output: Seq<char>,
    /// The arguments of the program.
    pub args: Seq<Seq<char>>,
}

/// What is left of `input` after `pos` characters.
pub open spec fn remaining(input: Seq<char>, pos: nat) -> Seq<char> {
    if pos <= input.len() {
        input.skip(pos as int)
    } else {
        Seq::empty()
    }
}

/// The first `pos` characters of `input`, or all of it if it has fewer.
pub open spec fn consumed(input: Seq<char>, pos: nat) -> Seq<char> {
    if pos <= input.len() {
        input.take(pos as int)
    } else {
        input
    }
}

/// The texts of a sequence of strings, in order.
pub open spec fn strings_model(s: Seq<String>) -> Seq<Seq<char>> {
    Seq::new(s.len(), |i: int| s[i]@)
}

impl View for Os {
    type V = OsM;

    open spec fn view(&self) -> OsM {
        OsM {
            read: consumed(self.input@, self.pos as nat),
            input: remaining(self.input@, self.pos as nat),
            output: self.output@,
            args: strings_model(self.args@),
        }
    }
}

/// The length of the first line of `s`: up to and with the first line feed,
/// or all of `s` if it holds none.
pub open spec fn line_len(s: Seq<char>) -> nat
    decreases s.len(),
{
    if s.len() == 0 {
        0
    } else if s[0] == '\n' {
        1
    } else {
        1 + line_len(s.skip(1))
    }
}

impl OsM {
    /// The line that is read next: the input up to and with the first line
    /// feed, or all that is left if there is no line feed.
    pub open spec fn next_line(self) -> Seq<char> {
        self.input.take(line_len(self.input) as int)
    }

    /// The state after a line has been read.
    pub open spec fn after_line(self) -> OsM {
        OsM {
            read: self.read + self.next_line(),
            input: self.input.skip(line_len(self.input) as int),
            ..self
        }
    }

    /// The state after `text` has been written.
    pub open spec fn after_write(self, text: Seq<char>) -> OsM {
        OsM { output: self.output + text, ..self }
    }
}

/// A text whose first `k` characters are no line feed: the first line is
/// those and the first line of the rest.
pub proof fn lemma_line_len_skip(s: Seq<char>, k: nat)
    requires
        k <= s.len(),
        forall|j: int| 0 <= j < k ==> s[j] != '\n',
    ensures
        line_len(s) == k + line_len(s.skip(k as int)),
    decreases k,
{
    if k > 0 {
        lemma_line_len_skip(s.skip(1), (k - 1) as nat);
        assert(s.skip(1).skip(k - 1) =~= s.skip(k as int));
    } else {
        assert(s.skip(0) =~= s);
    }
}

impl Os {
    /// A virtual operating system with `input` on its standard input,
    /// nothing written, and the arguments `args`.
    pub fn new(input: String, args: Vec<String>) -> (r: Os)
        ensures
            r@ == (OsM {
                read: Seq::empty(),
                input: input@,
                output: Seq::empty(),
                args: strings_model(args@),
            }),
    {
        let r = Os { input, pos: 0, output: String::new(), args };
        assert(r@.input =~= input@);
        assert(r@.read =~= Seq::empty());
        r
    }

    /// Writes `text` to the standard output.
    pub fn write(&mut self, text: &str)
        ensures
            final(self)@ == old(self)@.after_write(text@),
    {
        self.output.append(text);
    }

    /// Reads a line from the standard input: the text up to and with the
    /// next line feed, or all that is left if there is no line feed.
    pub fn read_line(&mut self) -> (line: String)
        ensures
            line@ == old(self)@.next_line(),
            final(self)@ == old(self)@.after_line(),
    {
        let len = self.input.as_str().unicode_len();
        if self.pos >= len {
            assert(self@.input =~= Seq::empty());
            let line = String::new();
            assert(self@.next_line() =~= line@);
            assert(self@.after_line().input =~= self@.input);
            assert(self@.after_line().read =~= self@.read);
            return line;
        }
        let ghost rem = self@.input;
        let start = self.pos;
        let mut i: usize = self.pos;
        let mut found = false;
        while i < len && !found
            invariant
                start <= i <= len,
                len == self.input@.len(),
                self.pos == start,
                rem == self.input@.skip(start as int),
                forall|j: int| 0 <= j < i - start - (if found { 1int } else { 0int }) ==> rem[j] != '\n',
                found ==> i > start && rem[i - start - 1] == '\n',
                *self == *old(self),
            decreases len - i + (if found { 0int } else { 1int }),
        {
            let c = self.input.as_str().get_char(i);
            assert(c == rem[i - start]);
            if c == '\n' {
                found = true;
            }
            i += 1;
        }
        proof {
            if found {
                lemma_line_len_skip(rem, (i - start - 1) as nat);
                assert(rem.skip(i - start - 1)[0] == '\n');
            } else {
                lemma_line_len_skip(rem, (i - start) as nat);
                assert(rem.skip(i - start) =~= Seq::empty());
            }
            assert(line_len(rem) == i - start);
        }
        let line = self.input.as_str().substring_char(start, i).to_owned();
        self.pos = i;
        assert(line@ =~= rem.take(line_len(rem) as int));
        assert(self@.input =~= rem.skip(line_len(rem) as int));
        assert(self@.read =~= old(self)@.read + line@);
        line
    }
}

} // verus!
