//! Daemon mode: one action line at a time, each answered with one line.

use vstd::prelude::*;

use crate::protocol::internal::{HELPER_DAEMON_ARGUMENT, HELPER_DAEMON_ERR, HELPER_DAEMON_OK};
use crate::text::{cat2, cat3, outcome, replace, replaced, same, texts, words, words_of};

verus! {

/// Whether a command line puts the helper into daemon mode.
pub fn wants_daemon(args: &Vec<String>) -> (r: bool)
    ensures
        r == (args@.len() > 0 && args@[0]@ == HELPER_DAEMON_ARGUMENT@),
        r ==> args@.len() > 0 && args@[0]@ == "--daemon"@,
        args@.len() > 0 && args@[0]@ == "--daemon"@ ==> r,
{
    args.len() > 0 && same(args[0].as_str(), HELPER_DAEMON_ARGUMENT)
}

/// The words of an action line; `None` for a blank one, which is skipped.
pub fn command_words(line: &str) -> (r: Option<Vec<String>>)
    ensures
        match r {
            Some(args) => words_of(line@).len() > 0 && texts(args@) == words_of(line@),
            None => words_of(line@).len() == 0,
        },
{
    let args = words(line);
    assert(texts(args@).len() == args@.len());
    if args.len() == 0 {
        None
    } else {
        Some(args)
    }
}

/// The reply to an action that ended in `result`: a marker, and behind the marker of a
/// failure its message, with line feeds turned into spaces.
pub open spec fn reply(result: Result<(), Seq<char>>) -> Seq<char> {
    match result {
        Ok(()) => HELPER_DAEMON_OK@,
        Err(message) => HELPER_DAEMON_ERR@ + " "@ + replaced(message, '\n', ' '),
    }
}

/// The reply to an action.
pub fn reply_for(result: &Result<(), String>) -> (r: String)
    ensures
        r@ == reply(outcome(*result)),
{
    match result {
        Ok(()) => HELPER_DAEMON_OK.to_owned(),
        Err(message) => cat3(
            HELPER_DAEMON_ERR,
            " ",
            replace(message.as_str(), '\n', ' ').as_str(),
        ),
    }
}

/// The reply to a line that could not be read: a malformed line is one command failing, and
/// not the session dying.
pub fn unreadable_reply(cause: &str) -> (r: String)
    ensures
        r@ == reply(Err("daemon: reading command: "@ + cause@)),
{
    let message = cat2("daemon: reading command: ", cause);
    cat3(HELPER_DAEMON_ERR, " ", replace(message.as_str(), '\n', ' ').as_str())
}

/// A reply is always a single line, whatever the message of a failure holds.
pub proof fn law_reply_is_one_line(result: Result<(), Seq<char>>, i: int)
    requires
        0 <= i < reply(result).len(),
    ensures
        reply(result)[i] != '\n',
{
    reveal_strlit("__predator_sense_helper_ok__");
    reveal_strlit("__predator_sense_helper_err__");
    reveal_strlit(" ");
    let ok = HELPER_DAEMON_OK@;
    let err = HELPER_DAEMON_ERR@;
    assert(ok == "__predator_sense_helper_ok__"@);
    assert(err == "__predator_sense_helper_err__"@);
    assert(err.len() == 29);
    match result {
        Ok(()) => {
            assert(ok[i] != '\n');
        },
        Err(message) => {
            let tail = replaced(message, '\n', ' ');
            if i < 29 {
                assert(reply(result)[i] == err[i]);
            } else if i == 29 {
                assert(reply(result)[i] == " "@[0]);
            } else {
                assert(reply(result)[i] == tail[i - 30]);
            }
        },
    }
}

/// A caller can tell success from failure by the reply alone.
pub proof fn law_replies_tell_failure_from_success(message: Seq<char>)
    ensures
        reply(Ok(())) != reply(Err(message)),
{
    reveal_strlit("__predator_sense_helper_ok__");
    reveal_strlit("__predator_sense_helper_err__");
    assert(HELPER_DAEMON_OK@ == "__predator_sense_helper_ok__"@);
    assert(HELPER_DAEMON_ERR@ == "__predator_sense_helper_err__"@);
    assert(reply(Ok(()))[24] == 'o');
    assert(reply(Err(message))[24] == HELPER_DAEMON_ERR@[24]);
}

/// The tree that a run may be pointed at for testing: never one that a caller selects for a
/// privileged run.
pub fn test_root(privileged: bool, requested: Option<String>) -> (r: Option<String>)
    ensures
        r == (if privileged {
            None
        } else {
            requested
        }),
        privileged ==> r is None,
        !privileged && requested is Some ==> r is Some && r->0@ == requested->0@,
{
    if privileged {
        None
    } else {
        requested
    }
}

/// A success is answered with its marker alone, and a failure with its own marker, a blank
/// and the message; a message of one line is answered as it is.
pub proof fn law_replies_hold_the_message(message: Seq<char>)
    requires
        forall|i: int| 0 <= i < message.len() ==> #[trigger] message[i] != '\n',
    ensures
        reply(Ok(())) == "__predator_sense_helper_ok__"@,
        reply(Err(message)) == "__predator_sense_helper_err__"@ + " "@ + message,
{
    assert(replaced(message, '\n', ' ') =~= message);
}

} // verus!
