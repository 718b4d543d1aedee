//! The development shell: from the words given on the command line to the
//! command that runs in the container.

use vstd::prelude::*;

verus! {

/// The words given to the development shell.
#[derive(Debug, Clone, PartialEq, Eq)]
pub struct DevshellArgs {
    /// A keyword and its arguments, or `--` and a command of one's own.
    pub args: Vec<String>,
}

/// The command behind a keyword: `build` builds the container image, any
/// other keyword is a subcommand of the build tool.
pub open spec fn keyword_command(keyword: Seq<char>) -> Seq<char> {
    if keyword == "build"@ {
        "docker-compose build"@
    } else {
        "cargo "@ + keyword
    }
}

/// Maps a keyword to its command.
pub fn map_keyword(cmd: &str) -> (command: String)
    ensures
        command@ == keyword_command(cmd@),
{
    if cmd.to_string() == "build".to_string() {
        "docker-compose build".to_string()
    } else {
        let mut out = "cargo ".to_string();
        out.append(cmd);
        out
    }
}

/// The words joined by single spaces.
pub open spec fn joined(words: Seq<String>) -> Seq<char>
    decreases words.len(),
{
    if words.len() == 0 {
        Seq::<char>::empty()
    } else if words.len() == 1 {
        words[0]@
    } else {
        joined(words.drop_last()) + " "@ + words.last()@
    }
}

/// The command that the words ask for; none where there are no words.
///
/// Behind `--` the words are the command. Otherwise the first word is a
/// keyword, and the words behind it are appended to its command.
pub open spec fn command_of(args: Seq<String>) -> Option<Seq<char>> {
    if args.len() == 0 {
        None
    } else {
        let rest = args.subrange(1, args.len() as int);
        if args[0]@ == "--"@ {
            Some(joined(rest))
        } else if rest.len() == 0 {
            Some(keyword_command(args[0]@))
        } else {
            Some(keyword_command(args[0]@) + " "@ + joined(rest))
        }
    }
}

/// Joins the words from `from` on by single spaces.
fn join_from(words: &Vec<String>, from: usize) -> (text: String)
    requires
        from <= words.len(),
    ensures
        text@ == joined(words@.subrange(from as int, words@.len() as int)),
{
    let mut out = String::new();
    let mut i: usize = from;
    while i < words.len()
        invariant
            from <= i <= words.len(),
            out@ == joined(words@.subrange(from as int, i as int)),
        decreases words.len() - i,
    {
        let ghost before = words@.subrange(from as int, i as int);
        let ghost after = words@.subrange(from as int, i as int + 1);
        proof {
            assert(after.drop_last() =~= before);
            assert(after.last() == words@[i as int]);
        }
        if i > from {
            out.append(" ");
        }
        out.append(words[i].as_str());
        proof {
            assert(out@ =~= joined(after));
        }
        i = i + 1;
    }
    out
}

impl DevshellArgs {
    /// The command to run in the container; none where no word was given.
    pub fn full_command(&self) -> (command: Option<String>)
        ensures
            match command {
                Some(text) => command_of(self.args@) == Some(text@),
                None => command_of(self.args@) is None,
            },
    {
        if self.args.len() == 0 {
            return None;
        }
        if self.args[0] == "--".to_string() {
            return Some(join_from(&self.args, 1));
        }
        let mut command = map_keyword(self.args[0].as_str());
        if self.args.len() > 1 {
            let rest = join_from(&self.args, 1);
            command.append(" ");
            command.append(rest.as_str());
        } else {
            proof {
                assert(self.args@.subrange(1, self.args@.len() as int).len() == 0);
            }
        }
        Some(command)
    }
}

} // verus!
