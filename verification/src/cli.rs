//! Command lines of the inventory services.

use crate::text::{debug_form, debug_text, same, texts};
use vstd::prelude::*;

verus! {

/// What an inventory service was asked to do.
#[derive(Clone, Copy, Debug, PartialEq, Eq, Structural)]
pub enum OutputMode {
    /// Print a report for people.
    Human,
    /// Print one JSON document.
    Json,
    /// Serve the bus.
    Daemon,
}

/// What a command line asks for. `snapshot` changes nothing, the last of
/// `--json` and `--daemon` wins, and the first argument that is none of these
/// ends the reading: with the usage text where it asks for help, and otherwise
/// with a complaint and the usage text.
pub open spec fn mode_of(
    arguments: Seq<Seq<char>>,
    usage: Seq<char>,
) -> Result<OutputMode, Seq<char>>
    decreases arguments.len(),
{
    if arguments.len() == 0 {
        Ok(OutputMode::Human)
    } else {
        match mode_of(arguments.drop_last(), usage) {
            Err(message) => Err(message),
            Ok(mode) => {
                let argument = arguments.last();
                if argument == "snapshot"@ {
                    Ok(mode)
                } else if argument == "--json"@ {
                    Ok(OutputMode::Json)
                } else if argument == "--daemon"@ {
                    Ok(OutputMode::Daemon)
                } else if argument == "--help"@ || argument == "-h"@ {
                    Err(usage)
                } else {
                    Err("unknown argument "@ + debug_form(argument) + "\n"@ + usage)
                }
            },
        }
    }
}

proof fn lemma_mode_error_stays(arguments: Seq<Seq<char>>, usage: Seq<char>, i: int)
    requires
        0 <= i <= arguments.len(),
        mode_of(arguments.take(i), usage) is Err,
    ensures
        mode_of(arguments, usage) == mode_of(arguments.take(i), usage),
    decreases arguments.len(),
{
    if i == arguments.len() {
        assert(arguments.take(i) =~= arguments);
    } else {
        let rest = arguments.drop_last();
        assert(rest.take(i) =~= arguments.take(i));
        lemma_mode_error_stays(rest, usage, i);
    }
}

/// Reads the command line of an inventory service.
pub fn output_mode(arguments: &Vec<String>, usage: &str) -> (result: Result<OutputMode, String>)
    ensures
        match result {
            Ok(mode) => mode_of(texts(arguments@), usage@) == Ok::<OutputMode, Seq<char>>(mode),
            Err(message) => mode_of(texts(arguments@), usage@) == Err::<OutputMode, Seq<char>>(
                message@,
            ),
        },
{
    let ghost all = texts(arguments@);
    let mut mode = OutputMode::Human;
    let mut i: usize = 0;
    assert(all.take(0) =~= Seq::empty());
    while i < arguments.len()
        invariant
            i <= arguments@.len(),
            all == texts(arguments@),
            mode_of(all.take(i as int), usage@) == Ok::<OutputMode, Seq<char>>(mode),
        decreases arguments.len() - i,
    {
        let argument = arguments[i].as_str();
        let ghost next = all.take(i + 1);
        assert(next.drop_last() =~= all.take(i as int));
        assert(next.last() == argument@);
        if same(argument, "snapshot") {
        } else if same(argument, "--json") {
            mode = OutputMode::Json;
        } else if same(argument, "--daemon") {
            mode = OutputMode::Daemon;
        } else if same(argument, "--help") || same(argument, "-h") {
            proof {
                lemma_mode_error_stays(all, usage@, i + 1);
            }
            return Err(usage.to_owned());
        } else {
            let mut message = "unknown argument ".to_owned();
            let shown = debug_text(argument);
            message.append(shown.as_str());
            message.append("\n");
            message.append(usage);
            proof {
                lemma_mode_error_stays(all, usage@, i + 1);
            }
            return Err(message);
        }
        i = i + 1;
    }
    assert(all.take(i as int) =~= all);
    Ok(mode)
}

/// The last option decides: the report is for people unless a later word asks for
/// a document or for the service, and any other word is refused.
pub proof fn the_last_option_decides(
    arguments: Seq<Seq<char>>,
    usage: Seq<char>,
    word: Seq<char>,
)
    ensures
        mode_of(Seq::empty(), usage) == Ok::<OutputMode, Seq<char>>(OutputMode::Human),
        mode_of(arguments, usage) is Ok ==> {
            &&& mode_of(arguments.push("--json"@), usage) == Ok::<OutputMode, Seq<char>>(
                OutputMode::Json,
            )
            &&& mode_of(arguments.push("--daemon"@), usage) == Ok::<OutputMode, Seq<char>>(
                OutputMode::Daemon,
            )
            &&& mode_of(arguments.push("snapshot"@), usage) == mode_of(arguments, usage)
            &&& mode_of(arguments.push("--help"@), usage) == Err::<OutputMode, Seq<char>>(usage)
            &&& mode_of(arguments.push("-h"@), usage) == Err::<OutputMode, Seq<char>>(usage)
        },
        word != "snapshot"@ && word != "--json"@ && word != "--daemon"@ ==> mode_of(
            arguments.push(word),
            usage,
        ) is Err,
        mode_of(arguments, usage) is Err ==> mode_of(arguments.push(word), usage) == mode_of(
            arguments,
            usage,
        ),
{
    reveal_strlit("snapshot");
    reveal_strlit("--json");
    reveal_strlit("--daemon");
    reveal_strlit("--help");
    reveal_strlit("-h");
    assert("snapshot"@.len() == 8 && "--json"@.len() == 6 && "--daemon"@.len() == 8);
    assert("--help"@.len() == 6 && "-h"@.len() == 2);
    assert("snapshot"@[0] == 's' && "--daemon"@[0] == '-');
    assert("--json"@[2] == 'j' && "--help"@[2] == 'h');
    assert(arguments.push("--json"@).drop_last() =~= arguments);
    assert(arguments.push("--daemon"@).drop_last() =~= arguments);
    assert(arguments.push("snapshot"@).drop_last() =~= arguments);
    assert(arguments.push("--help"@).drop_last() =~= arguments);
    assert(arguments.push("-h"@).drop_last() =~= arguments);
    assert(arguments.push(word).drop_last() =~= arguments);
}

} // verus!
