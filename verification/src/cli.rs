//! Command-line argument handling: the session to open, whether to list
//! sessions, and the usage text.
use vstd::prelude::*;

use crate::session::naming::session_name_of;

verus! {

/// What the arguments ask for.
pub struct CliArgs {
    pub session_name: String,
    pub list_sessions: bool,
}

/// The outcome of parsing the arguments: a run, a request for the usage
/// text, or a rejection naming the offending argument.
pub enum CliOutcome {
    Run { args: CliArgs },
    ShowHelp,
    Invalid { message: String },
}

/// Ghost model of a parse outcome.
pub enum CliOutcomeData {
    Run { session_name: Seq<char>, list_sessions: bool },
    ShowHelp,
    Invalid { message: Seq<char> },
}

impl View for CliOutcome {
    type V = CliOutcomeData;

    open spec fn view(&self) -> CliOutcomeData {
        match self {
            CliOutcome::Run { args } => CliOutcomeData::Run {
                session_name: args.session_name@,
                list_sessions: args.list_sessions,
            },
            CliOutcome::ShowHelp => CliOutcomeData::ShowHelp,
            CliOutcome::Invalid { message } => CliOutcomeData::Invalid { message: message@ },
        }
    }
}

pub open spec fn missing_session_value_msg() -> Seq<char> {
    "missing value for --session"@
}

pub open spec fn unknown_argument_msg(arg: Seq<char>) -> Seq<char> {
    "unknown argument: "@ + arg
}

/// How the arguments parse, scanning left to right: a session switch
/// takes the next argument as the name, the listing switch sets its
/// flag, a help switch wins at once, and anything else is rejected.
/// With no session named, a fresh name is made from the clock.
pub open spec fn parse_spec(
    argv: Seq<Seq<char>>,
    session: Option<Seq<char>>,
    list: bool,
    now: u64,
) -> CliOutcomeData
    decreases argv.len(),
{
    if argv.len() == 0 {
        CliOutcomeData::Run {
            session_name: match session {
                Some(s) => s,
                None => session_name_of(now),
            },
            list_sessions: list,
        }
    } else if argv[0] == "--session"@ {
        if argv.len() >= 2 {
            parse_spec(argv.skip(2), Some(argv[1]), list, now)
        } else {
            CliOutcomeData::Invalid { message: missing_session_value_msg() }
        }
    } else if argv[0] == "--list-sessions"@ {
        parse_spec(argv.skip(1), session, true, now)
    } else if argv[0] == "--help"@ || argv[0] == "-h"@ {
        CliOutcomeData::ShowHelp
    } else {
        CliOutcomeData::Invalid { message: unknown_argument_msg(argv[0]) }
    }
}

/// Parse the program's arguments (without the program name itself); the
/// clock value names the session when none is given.
pub fn parse_args(argv: &Vec<String>, now_secs: u64) -> (r: CliOutcome)
    ensures
        r@ == parse_spec(argv.deep_view(), None, false, now_secs),
{
    let ghost full = argv.deep_view();
    let n = argv.len();
    let mut i: usize = 0;
    let mut session: Option<String> = None;
    let mut list = false;
    proof {
        assert(full.skip(0) =~= full);
    }
    loop
        invariant
            0 <= i <= n,
            n == argv.len(),
            full == argv.deep_view(),
            parse_spec(full, None, false, now_secs) == parse_spec(
                full.skip(i as int),
                match session {
                    Some(s) => Some(s@),
                    None => None,
                },
                list,
                now_secs,
            ),
        ensures
            i == n,
            parse_spec(full, None, false, now_secs) == parse_spec(
                full.skip(i as int),
                match session {
                    Some(s) => Some(s@),
                    None => None,
                },
                list,
                now_secs,
            ),
        decreases n - i,
    {
        if i >= n {
            proof {
                assert(full.skip(i as int).len() == 0);
            }
            break;
        }
        proof {
            assert(full.skip(i as int)[0] == full[i as int]);
            assert(full.skip(i as int).skip(1) =~= full.skip(i + 1));
            if i + 1 < n {
                assert(full.skip(i as int).skip(2) =~= full.skip(i + 2));
                assert(full.skip(i as int)[1] == full[i + 1]);
            }
        }
        let arg = &argv[i];
        if crate::text::str_eq(arg.as_str(), "--session") {
            if i + 1 < n {
                session = Some(argv[i + 1].clone());
                i += 2;
            } else {
                return CliOutcome::Invalid {
                    message: String::from_str("missing value for --session"),
                };
            }
        } else if crate::text::str_eq(arg.as_str(), "--list-sessions") {
            list = true;
            i += 1;
        } else if crate::text::str_eq(arg.as_str(), "--help") || crate::text::str_eq(
            arg.as_str(),
            "-h",
        ) {
            return CliOutcome::ShowHelp;
        } else {
            let mut msg = String::from_str("unknown argument: ");
            msg.append(arg.as_str());
            proof {
                assert(msg@ =~= unknown_argument_msg(full[i as int]));
            }
            return CliOutcome::Invalid { message: msg };
        }
    }
    let session_name = match session {
        Some(s) => s,
        None => crate::session::naming::create_session_name(now_secs),
    };
    CliOutcome::Run { args: CliArgs { session_name, list_sessions: list } }
}

/// The usage text.
pub fn usage() -> (r: String)
    ensures
        r@ == "Usage: ox [--session <name>] [--list-sessions]"@,
{
    String::from_str("Usage: ox [--session <name>] [--list-sessions]")
}

} // verus!
