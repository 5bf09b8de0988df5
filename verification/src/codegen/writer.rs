//! An append-only text buffer with helpers that write indented
//! instructions, and a counter of the values pushed and not yet popped.

use vstd::prelude::*;
use vstd::string::StringExecFns;

verus! {

/// `s` after the two spaces of indentation.
pub open spec fn indented(s: Seq<char>) -> Seq<char> {
    "  "@ + s
}

/// An instruction with one operand.
pub open spec fn cmd1(cmd: Seq<char>, arg1: Seq<char>) -> Seq<char> {
    "  "@ + cmd + " "@ + arg1
}

/// An instruction with two operands.
pub open spec fn cmd2(cmd: Seq<char>, arg1: Seq<char>, arg2: Seq<char>) -> Seq<char> {
    "  "@ + cmd + " "@ + arg1 + ", "@ + arg2
}

/// `s` as a line of its own.
pub open spec fn line(s: Seq<char>) -> Seq<char> {
    s + "\n"@
}

pub struct Codegen {
    pub buf: String,
    pub depth: i64,
}

impl Codegen {
    pub fn new() -> (g: Self)
        ensures
            g.buf@ == Seq::<char>::empty(),
            g.depth == 0,
    {
        Self { buf: String::new(), depth: 0 }
    }

    /// Writes `push %rax` and counts the value pushed.
    pub fn ipush(&mut self)
        requires
            old(self).depth < i64::MAX,
        ensures
            final(self).buf@ == old(self).buf@ + line(cmd1("push"@, "%rax"@)),
            final(self).depth == old(self).depth + 1,
    {
        self.icmd1ln("push", "%rax");
        self.depth += 1;
    }

    /// Writes `pop` into `arg` and counts the value popped.
    pub fn ipop(&mut self, arg: &str)
        requires
            old(self).depth > i64::MIN,
        ensures
            final(self).buf@ == old(self).buf@ + line(cmd1("pop"@, arg@)),
            final(self).depth == old(self).depth - 1,
    {
        self.icmd1ln("pop", arg);
        self.depth -= 1;
    }

    fn write_str(&mut self, s: &str)
        ensures
            final(self).buf@ == old(self).buf@ + s@,
            final(self).depth == old(self).depth,
    {
        self.buf.append(s);
    }

    /// Appends `s` after two spaces.
    pub fn iwrite(&mut self, s: &str)
        ensures
            final(self).buf@ == old(self).buf@ + indented(s@),
            final(self).depth == old(self).depth,
    {
        self.write("  ");
        self.write(s);
        assert(final(self).buf@ =~= old(self).buf@ + indented(s@));
    }

    /// Appends `s`.
    pub fn write(&mut self, s: &str)
        ensures
            final(self).buf@ == old(self).buf@ + s@,
            final(self).depth == old(self).depth,
    {
        self.write_str(s);
    }

    /// Appends `s` after two spaces, and ends the line.
    pub fn iwriteln(&mut self, s: &str)
        ensures
            final(self).buf@ == old(self).buf@ + line(indented(s@)),
            final(self).depth == old(self).depth,
    {
        self.iwrite(s);
        self.line();
        assert(final(self).buf@ =~= old(self).buf@ + line(indented(s@)));
    }

    /// Appends `s` and ends the line.
    pub fn writeln(&mut self, s: &str)
        ensures
            final(self).buf@ == old(self).buf@ + line(s@),
            final(self).depth == old(self).depth,
    {
        self.write(s);
        self.line();
        assert(final(self).buf@ =~= old(self).buf@ + line(s@));
    }

    fn line(&mut self)
        ensures
            final(self).buf@ == old(self).buf@ + "\n"@,
            final(self).depth == old(self).depth,
    {
        self.buf.append("\n");
    }

    /// Empties the buffer. The counter stays.
    pub fn clear(&mut self)
        ensures
            final(self).buf@ == Seq::<char>::empty(),
            final(self).depth == old(self).depth,
    {
        self.buf = String::new();
    }

    /// Appends the instruction `cmd`, indented.
    pub fn icmd(&mut self, cmd: &str)
        ensures
            final(self).buf@ == old(self).buf@ + indented(cmd@),
            final(self).depth == old(self).depth,
    {
        self.iwrite(cmd);
    }

    /// Appends the instruction `cmd` with one operand, indented.
    pub fn icmd1(&mut self, cmd: &str, arg1: &str)
        ensures
            final(self).buf@ == old(self).buf@ + cmd1(cmd@, arg1@),
            final(self).depth == old(self).depth,
    {
        self.write("  ");
        self.write(cmd);
        self.write(" ");
        self.write(arg1);
        assert(final(self).buf@ =~= old(self).buf@ + cmd1(cmd@, arg1@));
    }

    /// Appends the instruction `cmd` with two operands, indented.
    pub fn icmd2(&mut self, cmd: &str, arg1: &str, arg2: &str)
        ensures
            final(self).buf@ == old(self).buf@ + cmd2(cmd@, arg1@, arg2@),
            final(self).depth == old(self).depth,
    {
        self.write("  ");
        self.write(cmd);
        self.write(" ");
        self.write(arg1);
        self.write(", ");
        self.write(arg2);
        assert(final(self).buf@ =~= old(self).buf@ + cmd2(cmd@, arg1@, arg2@));
    }

    pub fn icmdln(&mut self, cmd: &str)
        ensures
            final(self).buf@ == old(self).buf@ + line(indented(cmd@)),
            final(self).depth == old(self).depth,
    {
        self.icmd(cmd);
        self.line();
        assert(final(self).buf@ =~= old(self).buf@ + line(indented(cmd@)));
    }

    pub fn icmd1ln(&mut self, cmd: &str, arg1: &str)
        ensures
            final(self).buf@ == old(self).buf@ + line(cmd1(cmd@, arg1@)),
            final(self).depth == old(self).depth,
    {
        self.icmd1(cmd, arg1);
        self.line();
        assert(final(self).buf@ =~= old(self).buf@ + line(cmd1(cmd@, arg1@)));
    }

    pub fn icmd2ln(&mut self, cmd: &str, arg1: &str, arg2: &str)
        ensures
            final(self).buf@ == old(self).buf@ + line(cmd2(cmd@, arg1@, arg2@)),
            final(self).depth == old(self).depth,
    {
        self.icmd2(cmd, arg1, arg2);
        self.line();
        assert(final(self).buf@ =~= old(self).buf@ + line(cmd2(cmd@, arg1@, arg2@)));
    }
}

} // verus!
