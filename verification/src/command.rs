//! A subprocess invocation as a value: the program and its arguments. The
//! launcher builds these, proves what they hold, and only the outermost shell
//! of the application actually spawns them.

use vstd::prelude::*;

verus! {

/// A pending subprocess invocation: a program name or path, and arguments
/// in the order they are passed.
#[derive(Debug)]
pub struct Cmd {
    pub program: String,
    pub args: Vec<String>,
}

impl View for Cmd {
    type V = (Seq<char>, Seq<Seq<char>>);

    open spec fn view(&self) -> (Seq<char>, Seq<Seq<char>>) {
        (self.program@, self.args.deep_view())
    }
}

impl DeepView for Cmd {
    type V = (Seq<char>, Seq<Seq<char>>);

    open spec fn deep_view(&self) -> (Seq<char>, Seq<Seq<char>>) {
        self.view()
    }
}

impl Cmd {
    /// An invocation of `program` with no arguments yet.
    pub fn new(program: &str) -> (r: Cmd)
        ensures
            r@ == (program@, Seq::<Seq<char>>::empty()),
    {
        let r = Cmd { program: program.to_owned(), args: Vec::new() };
        proof {
            assert(r.args.deep_view() =~= Seq::<Seq<char>>::empty());
        }
        r
    }

    /// Append one argument.
    pub fn arg(&mut self, a: &str)
        ensures
            final(self)@ == (old(self)@.0, old(self)@.1.push(a@)),
    {
        let ghost prev = self.args.deep_view();
        self.args.push(a.to_owned());
        proof {
            assert(self.args.deep_view() =~= prev.push(a@));
        }
    }

    /// Append one argument, taking ownership of it.
    pub fn arg_owned(&mut self, a: String)
        ensures
            final(self)@ == (old(self)@.0, old(self)@.1.push(a@)),
    {
        let ghost prev = self.args.deep_view();
        let ghost av = a@;
        self.args.push(a);
        proof {
            assert(self.args.deep_view() =~= prev.push(av));
        }
    }

    /// Append a list of arguments, keeping their order.
    pub fn extend_args(&mut self, more: &Vec<String>)
        ensures
            final(self)@ == (old(self)@.0, old(self)@.1 + more.deep_view()),
    {
        let n = more.len();
        let mut i: usize = 0;
        proof {
            assert(old(self)@.1 + more.deep_view().take(0) =~= old(self)@.1);
        }
        while i < n
            invariant
                i <= n,
                n == more@.len(),
                self.program == old(self).program,
                self.args.deep_view() =~= old(self)@.1 + more.deep_view().take(i as int),
            decreases n - i,
        {
            let ghost prev = self.args.deep_view();
            self.args.push(more[i].clone());
            proof {
                assert(self.args.deep_view() =~= prev.push(more@[i as int]@));
                assert(more.deep_view().take(i + 1) =~= more.deep_view().take(i as int).push(
                    more.deep_view()[i as int],
                ));
            }
            i = i + 1;
        }
        proof {
            assert(more.deep_view().take(n as int) =~= more.deep_view());
        }
    }

    /// An identical copy of this invocation.
    pub fn duplicate(&self) -> (r: Cmd)
        ensures
            r@ == self@,
    {
        let n = self.args.len();
        let mut args: Vec<String> = Vec::new();
        let mut i: usize = 0;
        proof {
            assert(args.deep_view() =~= self.args.deep_view().take(0));
        }
        while i < n
            invariant
                i <= n,
                n == self.args@.len(),
                args.deep_view() =~= self.args.deep_view().take(i as int),
            decreases n - i,
        {
            let ghost prev = args.deep_view();
            args.push(self.args[i].clone());
            proof {
                assert(args.deep_view() =~= prev.push(self.args@[i as int]@));
                assert(self.args.deep_view().take(i + 1) =~= self.args.deep_view().take(
                    i as int,
                ).push(self.args.deep_view()[i as int]));
            }
            i = i + 1;
        }
        proof {
            assert(self.args.deep_view().take(n as int) =~= self.args.deep_view());
        }
        let r = Cmd { program: self.program.clone(), args };
        proof {
            assert(r@ == self@);
        }
        r
    }
}

/// The launcher re-invokes its own executable as a shim for the delegated
/// package manager: `<current exe> self uv ...`.
pub fn uv(current_exe: &str) -> (r: Cmd)
    ensures
        r@.0 == current_exe@,
        r@.1 =~= seq!["self"@, "uv"@],
{
    let mut r = Cmd::new(current_exe);
    r.arg("self");
    r.arg("uv");
    r
}

/// An invocation of the toolchain installer, used by packaging helpers.
pub fn rustup() -> (r: Cmd)
    ensures
        r@.0 == "rustup"@,
        r@.1 =~= Seq::<Seq<char>>::empty(),
{
    Cmd::new("rustup")
}

} // verus!
