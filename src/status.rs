use vstd::prelude::*;

use crate::text::{same_text, split_tokens, texts, tokens};

verus! {

/// Normalized outcome of one solve attempt.
#[derive(Debug, Clone, Copy, PartialEq, Eq, Structural)]
pub enum Status {
    Optimal,
    SubOptimal,
    Infeasible,
    Unbounded,
    NotSolved,
}

/// The status that the engine's first status word stands for.
pub open spec fn status_of_word(w: Seq<char>) -> Status {
    if w == "Optimal"@ {
        Status::Optimal
    } else if w == "Infeasible"@ || w == "Integer"@ {
        Status::Infeasible
    } else if w == "Unbounded"@ {
        Status::Unbounded
    } else if w == "Stopped"@ {
        Status::SubOptimal
    } else {
        Status::NotSolved
    }
}

/// The status that a status line stands for: its first token decides, and a
/// line without tokens means that nothing was solved.
pub open spec fn status_of_line(line: Seq<char>) -> Status {
    let t = tokens(line);
    if t.len() == 0 {
        Status::NotSolved
    } else {
        status_of_word(t[0])
    }
}

/// Maps a status word of the engine to a status.
pub fn status_from_word(word: &str) -> (r: Status)
    ensures
        r == status_of_word(word@),
{
    if same_text(word, "Optimal") {
        Status::Optimal
    } else if same_text(word, "Infeasible") || same_text(word, "Integer") {
        Status::Infeasible
    } else if same_text(word, "Unbounded") {
        Status::Unbounded
    } else if same_text(word, "Stopped") {
        Status::SubOptimal
    } else {
        Status::NotSolved
    }
}

/// Reads the status from the engine's status line.
pub fn status_from_line(line: &str) -> (r: Status)
    ensures
        r == status_of_line(line@),
{
    let t = split_tokens(line);
    if t.len() == 0 {
        Status::NotSolved
    } else {
        assert(texts(t@)[0] == t@[0]@);
        status_from_word(t[0].as_str())
    }
}

/// The status mapping is exact: each of the known words gives its status, and
/// any other word gives `NotSolved`.
pub proof fn lemma_status_words(w: Seq<char>)
    ensures
        status_of_word("Optimal"@) == Status::Optimal,
        status_of_word("Infeasible"@) == Status::Infeasible,
        status_of_word("Integer"@) == Status::Infeasible,
        status_of_word("Unbounded"@) == Status::Unbounded,
        status_of_word("Stopped"@) == Status::SubOptimal,
        w != "Optimal"@ && w != "Infeasible"@ && w != "Integer"@ && w != "Unbounded"@
            && w != "Stopped"@ ==> status_of_word(w) == Status::NotSolved,
{
    reveal_strlit("Optimal");
    reveal_strlit("Infeasible");
    reveal_strlit("Integer");
    reveal_strlit("Unbounded");
    reveal_strlit("Stopped");
    assert("Infeasible"@[0] != "Optimal"@[0]);
    assert("Integer"@[0] != "Optimal"@[0]);
    assert("Unbounded"@[0] != "Optimal"@[0]);
    assert("Stopped"@[0] != "Optimal"@[0]);
    assert("Stopped"@[0] != "Infeasible"@[0]);
    assert("Stopped"@[0] != "Integer"@[0]);
    assert("Stopped"@[0] != "Unbounded"@[0]);
    assert("Unbounded"@[0] != "Infeasible"@[0]);
    assert("Unbounded"@[0] != "Integer"@[0]);
}

} // verus!
