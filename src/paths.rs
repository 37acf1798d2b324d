//! Decisions of the directory tools: which directory to change to, and how
//! the current directory is shown.

use vstd::prelude::*;

verus! {

/// Why no directory to change to could be chosen.
#[derive(Clone, Copy, Debug, PartialEq, Eq, Structural)]
pub enum TargetError {
    /// No argument was given and the profile directory is not set.
    NoHome,
    /// The directory's name is not valid Unicode.
    BadEncoding,
    /// The directory's name is empty.
    Empty,
}

/// The directory to change to: the argument where one is given, else the
/// user's profile directory. Each is absent (`None`), or present and valid
/// Unicode (`Some(Some(..))`) or not (`Some(None)`).
pub fn target_directory(arg: Option<Option<String>>, home: Option<Option<String>>) -> (r: Result<
    String,
    TargetError,
>)
    ensures
        ({
            let chosen = if arg is Some {
                arg
            } else {
                home
            };
            match chosen {
                None => r == Err::<String, TargetError>(TargetError::NoHome),
                Some(None) => r == Err::<String, TargetError>(TargetError::BadEncoding),
                Some(Some(s)) => if s@.len() == 0 {
                    r == Err::<String, TargetError>(TargetError::Empty)
                } else {
                    r matches Ok(t) && t@ == s@
                },
            }
        }),
{
    let chosen = match arg {
        Some(a) => Some(a),
        None => home,
    };
    match chosen {
        None => Err(TargetError::NoHome),
        Some(None) => Err(TargetError::BadEncoding),
        Some(Some(s)) => {
            if s.as_str().is_empty() {
                Err(TargetError::Empty)
            } else {
                Ok(s)
            }
        },
    }
}

/// `s` without its trailing backslashes.
pub open spec fn without_trailing_backslashes(s: Seq<char>) -> Seq<char>
    decreases s.len(),
{
    if s.len() > 0 && s.last() == '\\' {
        without_trailing_backslashes(s.drop_last())
    } else {
        s
    }
}

/// How a directory is shown: a drive root such as `C:\` (three bytes that
/// end in a backslash) as it is, any other path without trailing
/// backslashes.
pub open spec fn shown_path(s: &str) -> Seq<char> {
    if s@.len() > 0 && s@.last() == '\\' && s.len() == 3 {
        s@
    } else {
        without_trailing_backslashes(s@)
    }
}

/// The current directory as it is printed.
pub fn display_path(s: &str) -> (r: &str)
    ensures
        r@ == shown_path(s),
{
    let n = s.unicode_len();
    if n > 0 && s.get_char(n - 1) == '\\' && s.len() == 3 {
        return s;
    }
    let mut k: usize = n;
    assert(s@.subrange(0, n as int) =~= s@);
    while k > 0 && s.get_char(k - 1) == '\\'
        invariant
            k <= n,
            n == s@.len(),
            without_trailing_backslashes(s@) == without_trailing_backslashes(
                s@.subrange(0, k as int),
            ),
        decreases k,
    {
        assert(s@.subrange(0, k as int).drop_last() =~= s@.subrange(0, k - 1));
        k = k - 1;
    }
    if k == 0 {
        assert(s@.subrange(0, 0) =~= Seq::<char>::empty());
    }
    s.substring_char(0, k)
}

} // verus!
