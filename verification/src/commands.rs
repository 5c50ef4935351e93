//! The chat command surface: parsing of lines that begin with `/`.
//!
//! A command line is split on single spaces; the first token names the
//! command, the rest are its arguments. Only `tp <name>` exists.

use vstd::prelude::*;

verus! {

/// A parsed chat command.
#[derive(Clone, Debug)]
pub enum Command {
    /// Teleport the sender to the named player.
    Tp(Vec<u8>),
}

/// Why a command line did not parse.
#[derive(Clone, Copy, Debug, PartialEq, Eq, Structural)]
pub enum CommandError {
    NoCommand,
    CommandNotKnown,
    TooManyArguments,
    NotEnoughArguments,
}

/// Index of the first space in `s`, or `s.len()` if there is none.
pub open spec fn first_space(s: Seq<u8>) -> int
    decreases s.len(),
{
    if s.len() == 0 {
        0
    } else if s[0] == 0x20 {
        0
    } else {
        1 + first_space(s.skip(1))
    }
}

/// `first_space` is pinned by any witness index: no space before it, and a
/// space (or the end) at it.
pub proof fn lemma_first_space_characterization(s: Seq<u8>, i: int)
    requires
        0 <= i <= s.len(),
        forall|j: int| 0 <= j < i ==> s[j] != 0x20,
        i == s.len() || s[i] == 0x20,
    ensures
        first_space(s) == i,
    decreases s.len(),
{
    if s.len() > 0 && s[0] != 0x20 {
        assert forall|j: int| 0 <= j < i - 1 implies s.skip(1)[j] != 0x20 by {
            assert(s.skip(1)[j] == s[j + 1]);
        }
        if i < s.len() {
            assert(s.skip(1)[i - 1] == s[i]);
        }
        lemma_first_space_characterization(s.skip(1), i - 1);
    }
}

/// The command name: everything before the first space.
pub open spec fn command_token(s: Seq<u8>) -> Seq<u8> {
    s.take(first_space(s))
}

/// The line has a second token.
pub open spec fn has_argument(s: Seq<u8>) -> bool {
    first_space(s) < s.len()
}

/// What follows the first space.
pub open spec fn after_command(s: Seq<u8>) -> Seq<u8> {
    s.skip(first_space(s) + 1)
}

/// The second token.
pub open spec fn argument_token(s: Seq<u8>) -> Seq<u8> {
    command_token(after_command(s))
}

/// The line has a third token.
pub open spec fn has_extra_argument(s: Seq<u8>) -> bool {
    has_argument(s) && has_argument(after_command(s))
}

/// The bytes of the command name `tp`.
pub open spec fn tp_token() -> Seq<u8> {
    seq![0x74u8, 0x70u8]
}

/// Index of the first space at or after `from`.
fn find_space(s: &Vec<u8>, from: usize) -> (r: usize)
    requires
        from <= s@.len(),
    ensures
        from <= r <= s@.len(),
        r - from == first_space(s@.skip(from as int)),
{
    let n = s.len();
    let mut i = from;
    while i < n && s[i] != 0x20
        invariant
            from <= i <= n,
            n == s@.len(),
            forall|j: int| from <= j < i ==> s@[j] != 0x20,
        decreases n - i,
    {
        i = i + 1;
    }
    proof {
        let t = s@.skip(from as int);
        assert forall|j: int| 0 <= j < i - from implies t[j] != 0x20 by {
            assert(t[j] == s@[j + from]);
        }
        if i < n {
            assert(t[i - from] == s@[i as int]);
        }
        lemma_first_space_characterization(t, i - from);
    }
    i
}

impl Command {
    /// Parses the text after the leading `/` of a chat line.
    ///
    /// Returns `Tp(name)` for `tp <name>`; otherwise says exactly what is
    /// wrong: an empty command name, an unknown one, a missing argument, or
    /// an extra one.
    pub fn from_str(s: &Vec<u8>) -> (r: Result<Command, CommandError>)
        ensures
            match r {
                Ok(cmd) => {
                    &&& cmd matches Command::Tp(name) && name@ == argument_token(s@)
                    &&& command_token(s@) == tp_token()
                    &&& has_argument(s@)
                    &&& !has_extra_argument(s@)
                },
                Err(e) => match e {
                    CommandError::NoCommand => command_token(s@).len() == 0,
                    CommandError::CommandNotKnown => command_token(s@).len() > 0 && command_token(
                        s@,
                    ) != tp_token(),
                    CommandError::NotEnoughArguments => command_token(s@) == tp_token()
                        && !has_argument(s@),
                    CommandError::TooManyArguments => command_token(s@) == tp_token()
                        && has_extra_argument(s@),
                },
            },
    {
        let n = s.len();
        proof {
            assert(s@.skip(0) =~= s@);
        }
        let i0 = find_space(s, 0);
        proof {
            assert(command_token(s@) == s@.take(i0 as int));
        }
        if i0 == 0 {
            assert(command_token(s@).len() == 0);
            return Err(CommandError::NoCommand);
        }
        let is_tp: bool = i0 == 2 && s[0] == 0x74 && s[1] == 0x70;
        proof {
            if is_tp {
                assert(s@.take(2) =~= tp_token());
            } else {
                assert(s@.take(i0 as int) != tp_token()) by {
                    if s@.take(i0 as int) == tp_token() {
                        assert(s@.take(i0 as int).len() == 2);
                        assert(s@.take(2)[0] == s@[0] && s@.take(2)[1] == s@[1]);
                    }
                }
            }
        }
        if !is_tp {
            return Err(CommandError::CommandNotKnown);
        }
        if i0 == n {
            return Err(CommandError::NotEnoughArguments);
        }
        let i1 = find_space(s, i0 + 1);
        proof {
            assert(after_command(s@) == s@.skip(i0 + 1));
            assert(argument_token(s@) == s@.skip(i0 + 1).take(i1 - (i0 + 1)));
        }
        if i1 < n {
            return Err(CommandError::TooManyArguments);
        }
        let name = crate::codec::read_chunk(s, i0 + 1, i1 - (i0 + 1));
        proof {
            assert(name@ =~= s@.skip(i0 + 1).take(i1 - (i0 + 1)));
        }
        Ok(Command::Tp(name))
    }
}

} // verus!
