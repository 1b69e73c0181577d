//! A command line split into words, with its redirection or pipe.
use vstd::prelude::*;

verus! {

/// What follows the arguments: output sent to a file, or piped into the
/// next command.
#[derive(Debug, PartialEq, Eq)]
pub enum SpecialAction {
    Redir { to: String },
    Pipe { next_command: Box<Command> },
}

#[derive(Debug, PartialEq, Eq)]
pub struct Command {
    pub command: String,
    pub args: Vec<String>,
    pub special_action: Option<SpecialAction>,
}

/// Why a list of words is not a command.
#[derive(Debug, Clone, Copy, PartialEq, Eq, Structural)]
pub enum ParseError {
    /// A `>` with no file after it.
    MissingTarget,
}

/// A word that starts a redirection (`>`) or a pipe (`|`).
pub open spec fn is_special(w: Seq<char>) -> bool {
    w.len() > 0 && (w[0] == '>' || w[0] == '|')
}

/// The first position, from 1 on, of a special word; `args.len()` when none.
pub open spec fn first_special(args: Seq<String>, from: int) -> int
    decreases args.len() - from,
{
    if from >= args.len() {
        args.len() as int
    } else if is_special(args[from]@) {
        from
    } else {
        first_special(args, from + 1)
    }
}

/// `c` is what the words `args` mean: the first word is the command, the
/// words up to the first one starting with `>` or `|` its arguments; after
/// `>` comes the target file, after `|` the next command.
pub open spec fn parses_to(args: Seq<String>, c: Command) -> bool
    decreases args.len(),
{
    if args.len() == 0 {
        c.command@.len() == 0 && c.args@.len() == 0 && c.special_action is None
    } else {
        let k = first_special(args, 1);
        &&& c.command == args[0]
        &&& c.args@ == args.subrange(1, k)
        &&& if k < 1 || k >= args.len() {
            c.special_action is None
        } else if args[k]@[0] == '>' {
            c.special_action matches Some(SpecialAction::Redir { to }) && k + 1 < args.len()
                && to == args[k + 1]
        } else {
            c.special_action matches Some(SpecialAction::Pipe { next_command }) && parses_to(
                args.skip(k + 1),
                *next_command,
            )
        }
    }
}

/// The words `args` have a `>` with nothing after it.
pub open spec fn lacks_target(args: Seq<String>) -> bool
    decreases args.len(),
{
    if args.len() == 0 {
        false
    } else {
        let k = first_special(args, 1);
        if k < 1 || k >= args.len() {
            false
        } else if args[k]@[0] == '>' {
            k + 1 >= args.len()
        } else {
            lacks_target(args.skip(k + 1))
        }
    }
}

proof fn lemma_first_special_bounds(args: Seq<String>, from: int)
    requires
        1 <= from,
    ensures
        from <= first_special(args, from) || first_special(args, from) == args.len(),
        first_special(args, from) <= args.len(),
        first_special(args, from) < args.len() ==> is_special(args[first_special(args, from)]@),
        forall|j: int| from <= j < first_special(args, from) ==> !is_special(#[trigger] args[j]@),
    decreases args.len() - from,
{
    if from < args.len() && !is_special(args[from]@) {
        lemma_first_special_bounds(args, from + 1);
    }
}

fn starts_special(w: &String) -> (r: bool)
    ensures
        r == is_special(w@),
{
    let cs = crate::utils::chars_of(w.as_str());
    cs.len() > 0 && (cs[0] == '>' || cs[0] == '|')
}

pub(crate) fn clone_words(v: &Vec<String>, start: usize, end: usize) -> (r: Vec<String>)
    requires
        start <= end <= v@.len(),
    ensures
        r@ == v@.subrange(start as int, end as int),
{
    let mut r: Vec<String> = Vec::new();
    let mut i = start;
    assert(r@ =~= v@.subrange(start as int, start as int));
    while i < end
        invariant
            start <= i <= end <= v@.len(),
            r@ == v@.subrange(start as int, i as int),
        decreases end - i,
    {
        r.push(v[i].clone());
        assert(r@ =~= v@.subrange(start as int, i + 1));
        i = i + 1;
    }
    r
}

impl Command {
    /// Builds a command from its words.
    pub fn parse_args(args: Vec<String>) -> (r: Result<Command, ParseError>)
        ensures
            r matches Ok(c) ==> parses_to(args@, c),
            r is Err <==> lacks_target(args@),
        decreases args@.len(),
    {
        let n = args.len();
        if n == 0 {
            return Ok(Command { command: String::new(), args: Vec::new(), special_action: None });
        }
        let mut k: usize = 1;
        while k < n && !starts_special(&args[k])
            invariant
                1 <= k <= n == args@.len(),
                first_special(args@, 1) == first_special(args@, k as int),
            decreases n - k,
        {
            k = k + 1;
        }
        proof {
            lemma_first_special_bounds(args@, 1);
        }
        let command = args[0].clone();
        let words = clone_words(&args, 1, k);
        if k == n {
            return Ok(Command { command, args: words, special_action: None });
        }
        let special = crate::utils::chars_of(args[k].as_str());
        if special[0] == '>' {
            if k + 1 < n {
                let to = args[k + 1].clone();
                Ok(Command { command, args: words, special_action: Some(SpecialAction::Redir { to }) })
            } else {
                Err(ParseError::MissingTarget)
            }
        } else {
            let rest = clone_words(&args, k + 1, n);
            proof {
                assert(rest@.len() < args@.len());
            }
            let next = Command::parse_args(rest);
            proof {
                assert(args@.subrange(k + 1, n as int) =~= args@.skip(k + 1));
            }
            match next {
                Ok(next_command) => Ok(
                    Command {
                        command,
                        args: words,
                        special_action: Some(SpecialAction::Pipe { next_command: Box::new(next_command) }),
                    },
                ),
                Err(e) => Err(e),
            }
        }
    }

    /// Drops the command name: the first argument becomes the command.
    pub fn shift(self) -> (r: Command)
        ensures
            self.args@.len() == 0 ==> r.command@.len() == 0 && r.args@ == self.args@,
            self.args@.len() > 0 ==> r.command == self.args@[0] && r.args@ == self.args@.drop_first(),
            r.special_action == self.special_action,
    {
        let mut args = self.args;
        let command = if args.len() == 0 {
            String::new()
        } else {
            args.remove(0)
        };
        Command { command, args, special_action: self.special_action }
    }
}

} // verus!
