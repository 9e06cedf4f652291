//! Waits for the answer of an agent's program.

use crate::guests::host::copy_bytes;
use crate::json::{json_document, read_json};
use crate::local::calls::fails_with;
use crate::openings::records::RunnerError;
use crate::prose::{lossy_text, read_lossy, read_text};
use crate::text::{concat3, opt_text, trim, trimmed};
use vstd::prelude::*;

verus! {

/// An answer: the text on the output, once it is JSON.
pub open spec fn answer_in(stdout: Seq<u8>) -> Option<Seq<char>> {
    if !vstd::utf8::valid_utf8(stdout) {
        None
    } else {
        let t = trim(vstd::utf8::decode_utf8(stdout));
        if t.len() == 0 || json_document(t) is None {
            None
        } else {
            Some(t)
        }
    }
}

pub fn try_parse_json(stdout: &Vec<u8>) -> (r: Option<String>)
    ensures
        opt_text(r) == answer_in(stdout@),
{
    let bytes = copy_bytes(stdout, 0, stdout.len());
    assert(bytes@ =~= stdout@);
    match read_text(bytes) {
        Err(_) => None,
        Ok(s) => {
            let t = trimmed(s.as_str());
            if t.as_str().is_empty() {
                return None;
            }
            match read_json(t.as_str()) {
                Some(_) => Some(t),
                None => None,
            }
        },
    }
}

/// How much of a program's output has been looked at.
#[derive(Debug)]
pub struct Watch {
    pub stdout_seen: usize,
    pub stderr_seen: usize,
}

/// What is seen of a program at one moment.
pub open spec fn complaint_in(stderr: Seq<u8>, seen: usize) -> Option<Seq<char>> {
    if stderr.len() > seen {
        let t = trim(lossy_text(stderr.skip(seen as int)));
        if t.len() > 0 {
            Some(t)
        } else {
            None
        }
    } else {
        None
    }
}

/// Whether the program has answered since the last look.
pub open spec fn fresh_answer(stdout: Seq<u8>, seen: usize) -> Option<Seq<char>> {
    if stdout.len() != seen {
        answer_in(stdout)
    } else {
        None
    }
}

impl Watch {
    pub fn new() -> (r: Self)
        ensures
            r.stdout_seen == 0,
            r.stderr_seen == 0,
    {
        Watch { stdout_seen: 0, stderr_seen: 0 }
    }

    /// Looks at a program. A new answer ends the watch, then a new complaint, then the time limit;
    /// otherwise it goes on.
    pub fn look(
        &mut self,
        stdout: &Vec<u8>,
        stderr: &Vec<u8>,
        late: bool,
        agent: &str,
        node_id: &str,
        timeout_ms: u64,
    ) -> (r: Option<Result<String, RunnerError>>)
        ensures
            match (
                fresh_answer(stdout@, old(self).stdout_seen),
                complaint_in(stderr@, old(self).stderr_seen),
                r,
            ) {
                (Some(a), _, Some(Ok(t))) => t@ == a,
                (None, Some(c), Some(Err(e))) => fails_with(
                    e,
                    "agent "@ + agent@ + " failed: "@ + c,
                ),
                (None, None, Some(Err(e))) => late && match e {
                    RunnerError::Timeout { node_id: n, timeout_ms: t } => n@ == node_id@ && t
                        == timeout_ms,
                    _ => false,
                },
                (None, None, None) => !late && final(self).stdout_seen == stdout@.len()
                    && final(self).stderr_seen == (if stderr@.len() > old(self).stderr_seen {
                    stderr@.len() as usize
                } else {
                    old(self).stderr_seen
                }),
                _ => false,
            },
    {
        if stdout.len() != self.stdout_seen {
            match try_parse_json(stdout) {
                Some(t) => {
                    return Some(Ok(t));
                },
                None => {},
            }
            self.stdout_seen = stdout.len();
        }
        if stderr.len() > self.stderr_seen {
            let chunk = copy_bytes(stderr, self.stderr_seen, stderr.len());
            assert(chunk@ =~= stderr@.skip(old(self).stderr_seen as int));
            self.stderr_seen = stderr.len();
            let message = trimmed(read_lossy(&chunk).as_str());
            if !message.as_str().is_empty() {
                let mut text = concat3("agent ", agent, " failed: ");
                text.append(message.as_str());
                return Some(Err(RunnerError::Executor(text)));
            }
        }
        if late {
            return Some(Err(RunnerError::Timeout { node_id: node_id.to_owned(), timeout_ms }));
        }
        None
    }
}

/// What ends a watch as an answer is JSON.
pub proof fn answers_are_json(stdout: Seq<u8>)
    requires
        answer_in(stdout) is Some,
    ensures
        json_document(answer_in(stdout)->0) is Some,
        answer_in(stdout)->0.len() > 0,
{
}

} // verus!
