//! A build stage: shell commands run as one external task, with a fixed
//! environment and an exit status that decides whether the build goes on.
use vstd::prelude::*;
use crate::error::PkgError;
use crate::text::{decimal, decimal_string, views};

verus! {

#[derive(Clone, Debug)]
pub struct Function {
    pub commands: Vec<String>,
}

impl Default for Function {
    fn default() -> (r: Self)
        ensures
            r.commands@.len() == 0,
    {
        Function { commands: Vec::new() }
    }
}

/// How an external task ended.
#[derive(Clone, Copy, Debug, PartialEq, Eq, Structural)]
pub enum StageExit {
    Exited(u32),
    Signaled(u8),
    Other(i32),
    Undetermined,
}

/// Lines joined by newlines.
pub open spec fn join_lines(v: Seq<Seq<char>>) -> Seq<char>
    decreases v.len(),
{
    if v.len() == 0 {
        Seq::empty()
    } else if v.len() == 1 {
        v[0]
    } else {
        join_lines(v.drop_last()) + seq!['\n'] + v.last()
    }
}

/// The decimal rendering of a signed number.
pub open spec fn signed_decimal(n: int) -> Seq<char> {
    if n < 0 { seq!['-'] + decimal((-n) as nat) } else { decimal(n as nat) }
}

/// The diagnostic of a failed stage.
pub open spec fn exit_message(e: StageExit) -> Seq<char> {
    match e {
        StageExit::Exited(c) => "Process exited with code: "@ + decimal(c as nat),
        StageExit::Signaled(s) => "Process exited with code: "@ + decimal(s as nat),
        StageExit::Other(c) => "Process exited with code: "@ + signed_decimal(c as int),
        StageExit::Undetermined => "Undetermined"@,
    }
}

impl Function {
    /// The shell text of the stage: its commands, one per line.
    pub fn script(&self) -> (r: String)
        ensures
            r@ == join_lines(views(self.commands@)),
    {
        let mut s = String::new();
        let mut i: usize = 0;
        while i < self.commands.len()
            invariant
                i <= self.commands@.len(),
                s@ == join_lines(views(self.commands@.subrange(0, i as int))),
            decreases self.commands@.len() - i,
        {
            let ghost p = views(self.commands@.subrange(0, i as int + 1));
            assert(p.drop_last() =~= views(self.commands@.subrange(0, i as int)));
            if i > 0 {
                proof { reveal_strlit("\n"); }
                s.append("\n");
            } else {
                assert(p.drop_last().len() == 0);
            }
            s.append(self.commands[i].as_str());
            i = i + 1;
        }
        assert(self.commands@.subrange(0, self.commands@.len() as int) =~= self.commands@);
        s
    }
}

/// Whether the build goes on after a stage: only a zero exit code is
/// success; any other ending fails the build with its diagnostic.
pub fn stage_result(exit: StageExit) -> (r: Result<(), PkgError>)
    ensures
        r is Ok <==> exit == StageExit::Exited(0),
        r matches Err(e) ==> (e matches PkgError::ScriptFailure(m) && m@ == exit_message(exit)),
{
    let prefix = "Process exited with code: ";
    match exit {
        StageExit::Exited(c) => {
            if c == 0 {
                Ok(())
            } else {
                let mut m = String::from_str(prefix);
                let d = decimal_string(c as u64);
                m.append(d.as_str());
                Err(PkgError::ScriptFailure(m))
            }
        },
        StageExit::Signaled(s) => {
            let mut m = String::from_str(prefix);
            let d = decimal_string(s as u64);
            m.append(d.as_str());
            Err(PkgError::ScriptFailure(m))
        },
        StageExit::Other(c) => {
            let mut m = String::from_str(prefix);
            if c < 0 {
                proof { reveal_strlit("-"); }
                m.append("-");
                let d = decimal_string((-(c as i64)) as u64);
                m.append(d.as_str());
            } else {
                let d = decimal_string(c as u64);
                m.append(d.as_str());
            }
            Err(PkgError::ScriptFailure(m))
        },
        StageExit::Undetermined => Err(PkgError::ScriptFailure(String::from_str("Undetermined"))),
    }
}

} // verus!
