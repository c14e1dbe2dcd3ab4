//! The render buffer: accumulates output text while tracking the current column,
//! the indentation level and a pending blank line.
use vstd::prelude::*;
use vstd::std_specs::iter::IteratorSpec;

verus! {

/// Columns added by one level of indentation.
pub const INDENT_UNIT: usize = 4;

/// The abstract state of a [`Buffer`].
pub struct BufferModel {
    /// Everything written so far.
    pub content: Seq<char>,
    /// Length of the current, unterminated line.
    pub column: nat,
    /// Indentation emitted at the start of each new non-empty line.
    pub indent: nat,
    /// Whether one empty line is to be emitted before the next non-empty line.
    pub blank_pending: bool,
}

pub open spec fn ends_with_newline(s: Seq<char>) -> bool {
    s.len() > 0 && s.last() == '\n'
}

pub open spec fn spaces(n: nat) -> Seq<char> {
    Seq::new(n, |i: int| ' ')
}

/// Length of the last line of `s`: the characters after its last line break.
pub open spec fn column_of(s: Seq<char>) -> nat
    decreases s.len(),
{
    if s.len() == 0 {
        0
    } else if s.last() == '\n' {
        0
    } else {
        column_of(s.drop_last()) + 1
    }
}

impl BufferModel {
    /// The column is the length of the last line and the indentation is a whole number
    /// of units.
    pub open spec fn wf(self) -> bool {
        &&& self.column == column_of(self.content)
        &&& self.indent % (INDENT_UNIT as nat) == 0
    }

    pub open spec fn empty() -> BufferModel {
        BufferModel { content: Seq::empty(), column: 0, indent: 0, blank_pending: false }
    }

    /// Writes one character. A line break ends the line; the first other character of a
    /// new line is preceded by the pending blank line, if any, and by the indentation.
    pub open spec fn push(self, c: char) -> BufferModel {
        if c == '\n' {
            BufferModel { content: self.content.push(c), column: 0, ..self }
        } else if ends_with_newline(self.content) {
            let head = if self.blank_pending {
                self.content.push('\n')
            } else {
                self.content
            };
            BufferModel {
                content: head + spaces(self.indent).push(c),
                column: self.indent + 1,
                blank_pending: false,
                ..self
            }
        } else {
            BufferModel { content: self.content.push(c), column: self.column + 1, ..self }
        }
    }

    /// Writes the characters of `s` in order.
    pub open spec fn push_all(self, s: Seq<char>) -> BufferModel
        decreases s.len(),
    {
        if s.len() == 0 {
            self
        } else {
            self.push_all(s.drop_last()).push(s.last())
        }
    }

    pub open spec fn indented(self) -> BufferModel {
        BufferModel { indent: (self.indent + INDENT_UNIT) as nat, blank_pending: false, ..self }
    }

    pub open spec fn dedented(self) -> BufferModel {
        BufferModel { indent: (self.indent - INDENT_UNIT) as nat, blank_pending: false, ..self }
    }

    pub open spec fn with_blank_line(self) -> BufferModel {
        BufferModel { blank_pending: true, ..self }
    }
}

/// Output text under construction.
pub struct Buffer {
    content: Vec<char>,
    line_length: usize,
    indent: usize,
    insert_blank_line: bool,
}

impl View for Buffer {
    type V = BufferModel;

    closed spec fn view(&self) -> BufferModel {
        BufferModel {
            content: self.content@,
            column: self.line_length as nat,
            indent: self.indent as nat,
            blank_pending: self.insert_blank_line,
        }
    }
}

proof fn lemma_column_bounded(s: Seq<char>)
    ensures
        column_of(s) <= s.len(),
    decreases s.len(),
{
    if s.len() > 0 {
        lemma_column_bounded(s.drop_last());
    }
}

proof fn lemma_column_after_indent(head: Seq<char>, n: nat, c: char)
    requires
        ends_with_newline(head),
        c != '\n',
    ensures
        column_of(head + spaces(n).push(c)) == n + 1,
    decreases n,
{
    let s = head + spaces(n).push(c);
    assert(s.drop_last() == head + spaces(n));
    lemma_column_of_spaces(head, n);
}

proof fn lemma_column_of_spaces(head: Seq<char>, n: nat)
    requires
        ends_with_newline(head),
    ensures
        column_of(head + spaces(n)) == n,
    decreases n,
{
    if n == 0 {
        assert(head + spaces(0) == head);
    } else {
        let n1 = (n - 1) as nat;
        assert((head + spaces(n)).drop_last() == head + spaces(n1));
        lemma_column_of_spaces(head, n1);
    }
}

pub proof fn lemma_push_wf(b: BufferModel, c: char)
    requires
        b.wf(),
    ensures
        b.push(c).wf(),
{
    if c == '\n' {
        assert(b.push(c).content.last() == '\n');
    } else if ends_with_newline(b.content) {
        let head = if b.blank_pending {
            b.content.push('\n')
        } else {
            b.content
        };
        lemma_column_after_indent(head, b.indent, c);
    } else {
        assert(b.content.push(c).drop_last() == b.content);
    }
}

impl Buffer {
    /// An empty buffer at indentation zero.
    pub fn with_capacity(capacity: usize) -> (b: Self)
        ensures
            b@ == BufferModel::empty(),
            b@.wf(),
    {
        Buffer {
            content: Vec::with_capacity(capacity),
            line_length: 0,
            indent: 0,
            insert_blank_line: false,
        }
    }

    /// Adds a character to the buffer.
    pub fn push(&mut self, c: char)
        requires
            old(self)@.wf(),
        ensures
            final(self)@ == old(self)@.push(c),
            final(self)@.wf(),
            final(self)@.indent == old(self)@.indent,
    {
        proof {
            lemma_push_wf(old(self)@, c);
        }
        let len = self.content.len();
        let at_line_start = len > 0 && self.content[len - 1] == '\n';
        if c == '\n' {
            self.content.push(c);
            self.line_length = 0;
        } else if at_line_start {
            if self.insert_blank_line {
                self.content.push('\n');
                self.insert_blank_line = false;
            }
            self.push_indent();
            self.content.push(c);
            proof {
                lemma_column_bounded(self.content@.drop_last());
                assert(self.content.len() <= usize::MAX);
            }
            self.line_length = self.line_length + 1;
        } else {
            self.content.push(c);
            proof {
                assert(self.content@.drop_last() == old(self)@.content);
                lemma_column_bounded(old(self)@.content);
                assert(self.content.len() <= usize::MAX);
            }
            self.line_length = self.line_length + 1;
        }
    }

    /// Adds a string to the buffer one character at a time.
    pub fn push_str(&mut self, s: &str)
        requires
            old(self)@.wf(),
        ensures
            final(self)@ == old(self)@.push_all(s@),
            final(self)@.wf(),
            final(self)@.indent == old(self)@.indent,
    {
        let chars = chars_of(s);
        self.push_chars(chars.as_slice());
    }

    /// Adds a sequence of characters to the buffer one at a time.
    pub fn push_chars(&mut self, s: &[char])
        requires
            old(self)@.wf(),
        ensures
            final(self)@ == old(self)@.push_all(s@),
            final(self)@.wf(),
            final(self)@.indent == old(self)@.indent,
    {
        let mut i: usize = 0;
        while i < s.len()
            invariant
                i <= s@.len(),
                self@ == old(self)@.push_all(s@.subrange(0, i as int)),
                self@.wf(),
                self@.indent == old(self)@.indent,
            decreases s@.len() - i,
        {
            self.push(s[i]);
            proof {
                assert(s@.subrange(0, i + 1).drop_last() == s@.subrange(0, i as int));
            }
            i = i + 1;
        }
        proof {
            assert(s@.subrange(0, s@.len() as int) == s@);
        }
    }

    /// Raises the indentation by one unit; a pending blank line is dropped.
    pub fn increment_indent(&mut self)
        requires
            old(self)@.wf(),
            old(self)@.indent + INDENT_UNIT <= usize::MAX,
        ensures
            final(self)@ == old(self)@.indented(),
            final(self)@.wf(),
    {
        self.indent = self.indent + INDENT_UNIT;
        self.insert_blank_line = false;
    }

    /// Lowers the indentation by one unit; a pending blank line is dropped.
    pub fn decrement_indent(&mut self)
        requires
            old(self)@.wf(),
            old(self)@.indent >= INDENT_UNIT,
        ensures
            final(self)@ == old(self)@.dedented(),
            final(self)@.wf(),
    {
        self.indent = self.indent - INDENT_UNIT;
        self.insert_blank_line = false;
    }

    /// Asks for one blank line before the next non-empty line written at this
    /// indentation.
    pub fn maybe_blank_line(&mut self)
        ensures
            final(self)@ == old(self)@.with_blank_line(),
    {
        self.insert_blank_line = true;
    }

    /// Length of the current line.
    pub fn column(&self) -> (r: usize)
        ensures
            r == self@.column,
    {
        self.line_length
    }

    /// Everything written so far.
    pub fn contents(&self) -> (r: &[char])
        ensures
            r@ == self@.content,
    {
        self.content.as_slice()
    }

    /// Everything written so far, taking the buffer apart.
    pub fn into_chars(self) -> (r: Vec<char>)
        ensures
            r@ == self@.content,
    {
        self.content
    }

    /// Everything written so far, as a string.
    pub fn to_string(&self) -> (r: String)
        ensures
            r@ == self@.content,
    {
        string_of(self.content.as_slice())
    }

    /// Adds the current indentation to the buffer.
    pub fn push_indent(&mut self)
        requires
            old(self)@.column <= old(self)@.content.len(),
        ensures
            final(self)@ == (BufferModel {
                content: old(self)@.content + spaces(old(self)@.indent),
                column: old(self)@.column + old(self)@.indent,
                ..old(self)@
            }),
    {
        let ghost start = self.content@;
        let mut i: usize = 0;
        while i < self.indent
            invariant
                i <= self.indent,
                self.content@ == start + spaces(i as nat),
                self.indent == old(self).indent,
                self.line_length == old(self).line_length,
                self.insert_blank_line == old(self).insert_blank_line,
                start == old(self).content@,
            decreases self.indent - i,
        {
            self.content.push(' ');
            i = i + 1;
            assert(self.content@ == start + spaces(i as nat));
        }
        proof {
            assert(self.content.len() <= usize::MAX);
        }
        self.line_length = self.line_length + self.indent;
    }
}

} // verus!
verus! {

/// Relies on `String::from_iter` over `&char`: the string holds the characters in order.
#[verifier::external_body]
pub(crate) fn string_of(chars: &[char]) -> (r: String)
    ensures
        r@ == chars@,
{
    String::from_iter(chars)
}

/// The characters of `s`, in order.
pub fn chars_of(s: &str) -> (r: Vec<char>)
    ensures
        r@ == s@,
{
    let mut r: Vec<char> = Vec::new();
    let mut it = s.chars();
    loop
        invariant
            r@ + it.remaining() == s@,
            it.decrease() is Some,
        ensures
            r@ == s@,
        decreases it.decrease()->0,
    {
        match it.next() {
            Some(c) => r.push(c),
            None => {
                assert(r@ + it.remaining() =~= r@);
                break;
            },
        }
    }
    r
}

} // verus!
