//! Pidfile contents and the record of the pidfile being managed.

use vstd::prelude::*;

use crate::text::{decimal, push_decimal};

verus! {

/// The pidfile being managed for one supervision run.
///
/// The driver removes the file when the run ends.
#[derive(Debug)]
pub struct PidfileGuard {
    /// Path of the pidfile.
    pub path: String,
}

impl PidfileGuard {
    /// The managed path.
    pub fn path(&self) -> (r: &str)
        ensures
            r@ == self.path@,
    {
        self.path.as_str()
    }
}

/// The pidfile contents for `pid`: its decimal rendering and a newline.
pub open spec fn pid_contents_spec(pid: u32) -> Seq<char> {
    decimal(pid as nat).push('\n')
}

/// The pidfile contents for `pid` (see [`pid_contents_spec`]).
pub fn pid_file_contents(pid: u32) -> (r: String)
    ensures
        r@ == pid_contents_spec(pid),
{
    let mut s = String::new();
    push_decimal(&mut s, pid as u64);
    crate::text::push_char(&mut s, '\n');
    proof {
        assert(s@ =~= pid_contents_spec(pid));
    }
    s
}

/// Law: the pidfile holds the process id in decimal and a newline, and
/// nothing else: the text before the newline is all digits and reads back
/// as the id.
pub proof fn lemma_pid_contents_read_back(pid: u32)
    ensures
        pid_contents_spec(pid).len() >= 2,
        pid_contents_spec(pid).last() == '\n',
        crate::text::all_digits(pid_contents_spec(pid).drop_last()),
        crate::text::digits_value(pid_contents_spec(pid).drop_last()) == pid,
{
    crate::text::lemma_decimal_reads_back(pid as nat);
    assert(pid_contents_spec(pid).drop_last() =~= decimal(pid as nat));
}

} // verus!
