//! External commands as the library plans them: a program and its arguments.
use vstd::prelude::*;
use crate::text::{views, owned};

verus! {

/// A command line: the program to run and its arguments.
pub struct NixCommand {
    pub program: String,
    pub args: Vec<String>,
}

impl NixCommand {
    /// The program, as text.
    pub open spec fn prog(&self) -> Seq<char> {
        self.program@
    }

    /// The arguments, as texts.
    pub open spec fn argv(&self) -> Seq<Seq<char>> {
        views(self.args@)
    }

    /// A command running `program` with no arguments.
    pub fn new(program: &str) -> (r: NixCommand)
        ensures
            r.prog() == program@,
            r.argv() == Seq::<Seq<char>>::empty(),
    {
        let r = NixCommand { program: owned(program), args: Vec::new() };
        assert(r.argv() =~= Seq::<Seq<char>>::empty());
        r
    }

    /// Appends one argument.
    pub fn arg(&mut self, a: &str)
        ensures
            final(self).prog() == old(self).prog(),
            final(self).argv() == old(self).argv().push(a@),
    {
        self.args.push(owned(a));
        assert(views(self.args@) =~= views(old(self).args@).push(a@));
    }

    /// Appends the arguments `a`, in order.
    pub fn args(&mut self, a: &Vec<String>)
        ensures
            final(self).prog() == old(self).prog(),
            final(self).argv() == old(self).argv() + views(a@),
    {
        let n = a.len();
        for i in 0..n
            invariant
                n == a@.len(),
                self.prog() == old(self).prog(),
                self.argv() == old(self).argv() + views(a@).take(i as int),
        {
            let ghost before = self.argv();
            self.arg(a[i].as_str());
            assert(views(a@).take(i + 1) =~= views(a@).take(i as int).push(a@[i as int]@));
            assert(self.argv() =~= old(self).argv() + views(a@).take(i + 1));
        }
        assert(views(a@).take(n as int) =~= views(a@));
    }
}

} // verus!
