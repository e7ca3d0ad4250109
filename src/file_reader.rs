use vstd::prelude::*;

verus! {

/// The description given for a failed read whose underlying error had none.
pub open spec fn fallback_failure_description() -> Seq<char> {
    seq![
        'f', 'i', 'l', 'e', ' ', 'c', 'o', 'u', 'l', 'd', ' ', 'n', 'o', 't', ' ',
        'b', 'e', ' ', 'r', 'e', 'a', 'd',
    ]
}

/// The description that a failed read carries back to the caller: the
/// underlying error's own, or the fallback where that one is empty.
pub open spec fn failure_description(underlying: Seq<char>) -> Seq<char> {
    if underlying.len() == 0 {
        fallback_failure_description()
    } else {
        underlying
    }
}

/// What the caller receives for one outcome of reading a file: the full
/// content on success, a description of the error on failure.
pub open spec fn read_response(
    outcome: Result<Seq<char>, Seq<char>>,
) -> Result<Seq<char>, Seq<char>> {
    match outcome {
        Ok(content) => Ok(content),
        Err(description) => Err(failure_description(description)),
    }
}

/// The view of a string-valued result.
pub open spec fn result_view(r: Result<String, String>) -> Result<Seq<char>, Seq<char>> {
    match r {
        Ok(s) => Ok(s@),
        Err(e) => Err(e@),
    }
}

/// The diagnostic line recorded for a request to read `file_path`.
pub open spec fn read_log_text(file_path: Seq<char>) -> Seq<char> {
    seq!['R', 'e', 'a', 'd', 'i', 'n', 'g', ' ', 'f', 'i', 'l', 'e', ':', ' '] + file_path
}

/// Formats the diagnostic line for a request to read `file_path`.
pub fn read_log_line(file_path: &str) -> (r: String)
    ensures
        r@ == read_log_text(file_path@),
{
    let prefix = "Reading file: ";
    proof {
        reveal_strlit("Reading file: ");
    }
    let mut line = String::from_str(prefix);
    line.append(file_path);
    proof {
        assert(line@ =~= read_log_text(file_path@));
    }
    line
}

/// Turns the outcome of reading a file, with the underlying error already
/// rendered as text, into the response of the read command. Content passes
/// through unchanged; every failure becomes one failure value whose
/// description is never empty.
pub fn read_file_response(outcome: Result<String, String>) -> (r: Result<String, String>)
    ensures
        result_view(r) == read_response(result_view(outcome)),
        r is Err ==> r->Err_0@.len() > 0,
{
    match outcome {
        Ok(content) => Ok(content),
        Err(description) => {
            if description.as_str().is_empty() {
                let fallback = "file could not be read";
                proof {
                    reveal_strlit("file could not be read");
                    assert(fallback@ =~= fallback_failure_description());
                }
                Err(String::from_str(fallback))
            } else {
                Err(description)
            }
        },
    }
}

/// Reading an unmodified file twice gives the same response: when the two
/// reads return the same content, both responses are that content.
pub proof fn lemma_repeated_reads_agree(first: Seq<char>, second: Seq<char>)
    requires
        first == second,
    ensures
        read_response(Ok(first)) == read_response(Ok(second)),
        read_response(Ok(first)) == Ok::<Seq<char>, Seq<char>>(first),
{
}

} // verus!
