//! The decisions of a concatenator: which arguments name files, and how the
//! copy loop from an input stream to an output stream proceeds.

use vstd::prelude::*;

verus! {

/// Bytes read from the input at a time.
pub const BUF_SIZE: usize = 512;

/// The argument that asks for errors to be suppressed.
pub open spec fn is_suppress_flag(a: Option<String>) -> bool {
    a matches Some(s) && s@ == seq!['-', 's']
}

/// An argument that starts with `-`; one that is not valid Unicode is never
/// an option.
pub open spec fn is_option(a: Option<String>) -> bool {
    a matches Some(s) && s@.len() > 0 && s@[0] == '-'
}

/// The positions, in order, of the first `n` arguments that name files.
pub open spec fn file_positions(args: Seq<Option<String>>, n: nat) -> Seq<usize>
    decreases n,
{
    if n == 0 {
        Seq::empty()
    } else if is_option(args[n - 1]) {
        file_positions(args, (n - 1) as nat)
    } else {
        file_positions(args, (n - 1) as nat).push((n - 1) as usize)
    }
}

/// What a concatenator's command line asks for.
pub struct CatArgs {
    /// Whether errors are to be passed over in silence.
    pub suppress_errors: bool,
    /// Positions, in the list given, of the arguments that name files.
    pub files: Vec<usize>,
}

fn arg_shape(a: &Option<String>) -> (r: (bool, bool))
    ensures
        r.0 == is_suppress_flag(*a),
        r.1 == is_option(*a),
{
    match a {
        Some(s) => {
            let t = s.as_str();
            let n = t.unicode_len();
            if n == 0 {
                (false, false)
            } else {
                let first = t.get_char(0);
                let flag = n == 2 && first == '-' && t.get_char(1) == 's';
                assert(flag ==> s@ =~= seq!['-', 's']);
                (flag, first == '-')
            }
        },
        None => (false, false),
    }
}

/// Sorts the arguments (the program's name left out): `-s` asks for errors
/// to be suppressed, any other argument that starts with `-` is ignored, and
/// every other one names a file.
pub fn parse_args(args: &Vec<Option<String>>) -> (r: CatArgs)
    ensures
        r.suppress_errors == exists|i: int| 0 <= i < args@.len() && is_suppress_flag(
            #[trigger] args@[i],
        ),
        r.files@ == file_positions(args@, args@.len()),
{
    let mut suppress = false;
    let mut files: Vec<usize> = Vec::new();
    let mut i: usize = 0;
    while i < args.len()
        invariant
            i <= args@.len(),
            suppress == exists|j: int| 0 <= j < i && is_suppress_flag(#[trigger] args@[j]),
            files@ == file_positions(args@, i as nat),
        decreases args@.len() - i,
    {
        let (flag, option) = arg_shape(&args[i]);
        if flag {
            suppress = true;
        }
        if !option {
            files.push(i);
        }
        i = i + 1;
        assert(suppress == exists|j: int| 0 <= j < i && is_suppress_flag(#[trigger] args@[j])) by {
            if suppress && !flag {
                let j0 = choose|j: int| 0 <= j < i - 1 && is_suppress_flag(#[trigger] args@[j]);
                assert(0 <= j0 < i);
            }
            if !suppress {
                assert forall|j: int| 0 <= j < i implies !is_suppress_flag(#[trigger] args@[j]) by {
                    if j < i - 1 {
                    }
                }
            }
        }
    }
    CatArgs { suppress_errors: suppress, files }
}

/// Where the copy loop stands. Reading and writing are the next action;
/// `Done` ends the loop with success or with the error last met.
#[derive(Clone, Copy, Debug, PartialEq, Eq, Structural)]
pub enum CopyState {
    /// Read the next chunk into the buffer.
    Reading,
    /// Write the buffer's bytes `written..filled` to the output.
    Writing { filled: usize, written: usize },
    /// Stop; `ok` is false where the last error is to be returned.
    Done { ok: bool },
}

/// The outcome of the action that a state asked for.
#[derive(Clone, Copy, Debug, PartialEq, Eq, Structural)]
pub enum CopyEvent {
    /// The input gave this many bytes; zero at its end.
    Read(usize),
    /// The output took this many bytes.
    Wrote(usize),
    /// The read or the write failed.
    Failed,
}

impl CopyState {
    /// A state that the loop can reach.
    pub open spec fn wf(self) -> bool {
        self matches CopyState::Writing { filled, written } ==> written < filled <= BUF_SIZE
    }
}

/// Whether an event can be the outcome of the state's action: a read gives
/// at most a buffer, and a write takes at most what it was handed.
pub open spec fn fits(s: CopyState, e: CopyEvent) -> bool {
    match (s, e) {
        (CopyState::Reading, CopyEvent::Read(n)) => n <= BUF_SIZE,
        (CopyState::Writing { filled, written }, CopyEvent::Wrote(k)) => k <= filled - written,
        (CopyState::Done { .. }, _) => true,
        (_, CopyEvent::Failed) => true,
        _ => false,
    }
}

/// The state after `e`.
pub open spec fn after(s: CopyState, e: CopyEvent, suppress_errors: bool) -> CopyState {
    match (s, e) {
        (CopyState::Done { .. }, _) => s,
        (_, CopyEvent::Failed) => CopyState::Done { ok: suppress_errors },
        (CopyState::Reading, CopyEvent::Read(n)) => if n == 0 {
            CopyState::Done { ok: true }
        } else {
            CopyState::Writing { filled: n, written: 0 }
        },
        (CopyState::Writing { filled, written }, CopyEvent::Wrote(k)) => if written + k
            < filled {
            CopyState::Writing { filled, written: (written + k) as usize }
        } else {
            CopyState::Reading
        },
        _ => s,
    }
}

/// One step of copying a stream to another in chunks of `BUF_SIZE` bytes:
/// the end of the input ends the copy with success; a chunk is written out
/// until the output has taken all of it, then the next is read; a failed
/// read or write ends the copy, with success where errors are suppressed.
pub fn cat_stream(state: CopyState, event: CopyEvent, suppress_errors: bool) -> (r: CopyState)
    requires
        state.wf(),
        fits(state, event),
    ensures
        r == after(state, event, suppress_errors),
        r.wf(),
{
    match (state, event) {
        (CopyState::Done { .. }, _) => state,
        (_, CopyEvent::Failed) => CopyState::Done { ok: suppress_errors },
        (CopyState::Reading, CopyEvent::Read(n)) => {
            if n == 0 {
                CopyState::Done { ok: true }
            } else {
                CopyState::Writing { filled: n, written: 0 }
            }
        },
        (CopyState::Writing { filled, written }, CopyEvent::Wrote(k)) => {
            if written + k < filled {
                CopyState::Writing { filled, written: written + k }
            } else {
                CopyState::Reading
            }
        },
        _ => state,
    }
}

} // verus!
