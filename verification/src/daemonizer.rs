//! The command line of the detached copy that Windows background mode
//! starts.

use vstd::prelude::*;

verus! {

/// UTF-16 `"`.
pub const QUOTE: u16 = 34;

/// UTF-16 space.
pub const SPACE: u16 = 32;

/// `s` between double quotes.
pub open spec fn quoted(s: Seq<u16>) -> Seq<u16> {
    seq![QUOTE] + s + seq![QUOTE]
}

/// Each argument as a space followed by the quoted argument, in order.
pub open spec fn quoted_args(args: Seq<Seq<u16>>) -> Seq<u16>
    decreases args.len(),
{
    if args.len() == 0 {
        Seq::empty()
    } else {
        quoted_args(args.drop_last()) + seq![SPACE] + quoted(args.last())
    }
}

/// The NUL-terminated UTF-16 command line: the quoted executable, then each
/// argument quoted and preceded by a space.
pub open spec fn command_line_spec(exe: Seq<u16>, args: Seq<Seq<u16>>) -> Seq<u16> {
    quoted(exe) + quoted_args(args) + seq![0u16]
}

fn append_units(out: &mut Vec<u16>, s: &Vec<u16>)
    ensures
        final(out)@ == old(out)@ + s@,
{
    let ghost start = out@;
    let mut i: usize = 0;
    while i < s.len()
        invariant
            i <= s@.len(),
            out@ == start + s@.take(i as int),
        decreases s.len() - i,
    {
        out.push(s[i]);
        i = i + 1;
        proof {
            assert(out@ =~= start + s@.take(i as int));
        }
    }
    proof {
        assert(s@.take(i as int) =~= s@);
    }
}

/// Builds the command line of the detached copy (see
/// [`command_line_spec`]) from the UTF-16 executable path and arguments.
pub fn detached_command_line(exe: &Vec<u16>, args: &Vec<Vec<u16>>) -> (r: Vec<u16>)
    ensures
        r@ == command_line_spec(exe@, args.deep_view()),
{
    let mut out: Vec<u16> = Vec::new();
    out.push(QUOTE);
    append_units(&mut out, exe);
    out.push(QUOTE);
    proof {
        assert(out@ =~= quoted(exe@));
        assert(args.deep_view().take(0) =~= Seq::<Seq<u16>>::empty());
        assert(out@ =~= quoted(exe@) + quoted_args(args.deep_view().take(0)));
    }
    let mut i: usize = 0;
    while i < args.len()
        invariant
            i <= args@.len(),
            out@ == quoted(exe@) + quoted_args(args.deep_view().take(i as int)),
        decreases args.len() - i,
    {
        let ghost before = out@;
        out.push(SPACE);
        out.push(QUOTE);
        append_units(&mut out, &args[i]);
        out.push(QUOTE);
        proof {
            let t = args.deep_view().take(i + 1);
            assert(t.drop_last() =~= args.deep_view().take(i as int));
            assert(t.last() == args[i as int]@);
            assert(out@ =~= before + seq![SPACE] + quoted(args[i as int]@));
        }
        i = i + 1;
    }
    out.push(0u16);
    proof {
        assert(args.deep_view().take(i as int) =~= args.deep_view());
    }
    out
}

} // verus!
