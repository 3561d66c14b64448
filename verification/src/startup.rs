//! What the server is told when it starts.

use vstd::prelude::*;

use crate::text::optional_text;
use crate::text::same_text;
use crate::text::texts;

verus! {

/// `arg` announces a log level.
pub open spec fn is_log_flag(arg: Seq<char>) -> bool {
    arg == "--log-level"@ || arg == "--log"@ || arg == "-l"@
}

/// The log level on a command line: the argument after the first flag that has one
/// after it.
pub open spec fn flag_level(args: Seq<Seq<char>>) -> Option<Seq<char>>
    decreases args.len(),
{
    if args.len() < 2 {
        None
    } else if is_log_flag(args[0]) {
        Some(args[1])
    } else {
        flag_level(args.drop_first())
    }
}

/// The log level: that of the environment wins over that of the command line, and
/// without either it is `info`.
pub open spec fn chosen_level(
    own: Option<Seq<char>>,
    common: Option<Seq<char>>,
    args: Seq<Seq<char>>,
) -> Seq<char> {
    match (own, common, flag_level(args)) {
        (Some(level), _, _) => level,
        (None, Some(level), _) => level,
        (None, None, Some(level)) => level,
        (None, None, None) => "info"@,
    }
}

fn find_flag_level(args: &Vec<String>) -> (r: Option<String>)
    ensures
        optional_text(r) == flag_level(texts(args@)),
{
    let ghost all = texts(args@);
    let n = args.len();
    let mut i: usize = 0;
    assert(all.skip(0) =~= all);
    while i < n && n - i >= 2
        invariant
            i <= n,
            n == args@.len(),
            all == texts(args@),
            flag_level(all) == flag_level(all.skip(i as int)),
        decreases n - i,
    {
        let arg = args[i].as_str();
        assert(all.skip(i as int)[0] == args@[i as int]@);
        assert(all.skip(i as int)[1] == args@[i + 1]@);
        if same_text(arg, "--log-level") || same_text(arg, "--log") || same_text(arg, "-l") {
            return Some(args[i + 1].clone());
        }
        assert(all.skip(i as int).drop_first() =~= all.skip(i + 1));
        i += 1;
    }
    None
}

/// Chooses the log level from the variables `RSDLP_LOG` and `RUST_LOG` and the
/// arguments of the program.
pub fn log_level(own: Option<String>, common: Option<String>, args: &Vec<String>) -> (r: String)
    ensures
        r@ == chosen_level(optional_text(own), optional_text(common), texts(args@)),
{
    if let Some(level) = own {
        return level;
    }
    if let Some(level) = common {
        return level;
    }
    match find_flag_level(args) {
        Some(level) => level,
        None => String::from_str("info"),
    }
}

/// Chooses the address on which the server listens, from the variable
/// `RSDLP_BIND_ADDRESS`.
pub fn bind_address(variable: Option<String>) -> (r: String)
    ensures
        r@ == match variable {
            Some(address) => address@,
            None => "0.0.0.0:3000"@,
        },
{
    match variable {
        Some(address) => address,
        None => String::from_str("0.0.0.0:3000"),
    }
}

/// The log level of the environment wins over any command line.
pub proof fn law_environment_first(
    own: Option<Seq<char>>,
    common: Option<Seq<char>>,
    args: Seq<Seq<char>>,
    other: Seq<Seq<char>>,
)
    requires
        own is Some || common is Some,
    ensures
        chosen_level(own, common, args) == chosen_level(own, common, other),
{
}

// ---------------------------------------------------------------------------
// Laws
// ---------------------------------------------------------------------------


/// The level after the first flag of the command line is taken, whichever of its
/// three names the flag has.
pub proof fn law_flag_is_read(before: Seq<Seq<char>>, flag: Seq<char>, level: Seq<char>, after: Seq<Seq<char>>)
    requires
        flag == "--log-level"@ || flag == "--log"@ || flag == "-l"@,
        forall|i: int|
            0 <= i < before.len() ==> #[trigger] before[i] != "--log-level"@ && before[i] != "--log"@
                && before[i] != "-l"@,
    ensures
        chosen_level(None, None, before + (seq![flag, level] + after)) == level,
    decreases before.len(),
{
    let tail = seq![flag, level] + after;
    let args = before + tail;
    if before.len() == 0 {
        assert(args =~= tail);
    } else {
        let rest = before.drop_first();
        assert(args[0] == before[0]);
        assert(args.drop_first() =~= rest + tail);
        assert forall|i: int| 0 <= i < rest.len() implies #[trigger] rest[i] != "--log-level"@
            && rest[i] != "--log"@ && rest[i] != "-l"@ by {
            assert(rest[i] == before[i + 1]);
        }
        law_flag_is_read(rest, flag, level, after);
    }
}

/// Without a flag on the command line the level is `info`.
pub proof fn law_no_flag(args: Seq<Seq<char>>)
    requires
        forall|i: int|
            0 <= i < args.len() - 1 ==> #[trigger] args[i] != "--log-level"@ && args[i] != "--log"@
                && args[i] != "-l"@,
    ensures
        chosen_level(None, None, args) == "info"@,
    decreases args.len(),
{
    if args.len() >= 2 {
        let rest = args.drop_first();
        assert(args[0] != "--log"@);
        assert forall|i: int| 0 <= i < rest.len() - 1 implies #[trigger] rest[i] != "--log-level"@
            && rest[i] != "--log"@ && rest[i] != "-l"@ by {
            assert(rest[i] == args[i + 1]);
        }
        law_no_flag(rest);
    }
}

/// The variable of the server is taken as it is, and else the common one.
pub proof fn law_variables_as_they_are(
    own: Option<Seq<char>>,
    common: Option<Seq<char>>,
    args: Seq<Seq<char>>,
)
    ensures
        own matches Some(level) ==> chosen_level(own, common, args) == level,
        own is None ==> (common matches Some(level) ==> chosen_level(own, common, args) == level),
{
}

} // verus!
