//! One generation attempt: the prompt strings sent to the completion
//! provider, the classification of what the provider handed back, and the
//! extraction of the generated name from the completion text.

use vstd::prelude::*;
use vstd::string::StrSliceExecFns;
use vstd::string::StringExecFns;

verus! {

/// Why one generation attempt failed. Every kind is treated the same by the
/// caller: logged and retried.
#[derive(Debug)]
pub enum GenError {
    /// The transport or the provider itself failed.
    Provider,
    /// The provider answered without any completion choice.
    EmptyCompletion,
    /// The completion text holds no `[`.
    Parse,
}

/// What one call of the completion provider produced, as plain values: the
/// content of the first completion choice, an answer without any choice, or
/// a transport/provider failure.
#[derive(Debug)]
pub enum GenOutcome {
    Content(String),
    NoChoice,
    Failure,
}

/// The name in the provider's output: the text strictly after the first `[`,
/// cut at the first following `]`. (The request asks the provider to stop at
/// `]`, so the cut is normally never exercised.) `None` when no `[` occurs.
pub open spec fn bracketed_name(s: Seq<char>) -> Option<Seq<char>>
    decreases s.len(),
{
    if s.len() == 0 {
        None
    } else if s[0] == '[' {
        Some(until_close(s.skip(1)))
    } else {
        bracketed_name(s.skip(1))
    }
}

/// The longest prefix in which no `]` occurs.
pub open spec fn until_close(s: Seq<char>) -> Seq<char>
    decreases s.len(),
{
    if s.len() == 0 {
        Seq::empty()
    } else if s[0] == ']' {
        Seq::empty()
    } else {
        seq![s[0]] + until_close(s.skip(1))
    }
}

/// Extracts the generated name from the completion text: the text after the
/// first `[`, cut at the first following `]`. Fails exactly when the text
/// holds no `[`.
pub fn extract_name(message: &str) -> (r: Result<String, GenError>)
    ensures
        match r {
            Ok(name) => bracketed_name(message@) == Some(name@),
            Err(e) => e is Parse && bracketed_name(message@) is None,
        },
{
    let n = message.unicode_len();
    let mut i: usize = 0;
    proof {
        assert(message@.skip(0) =~= message@);
    }
    while i < n && message.get_char(i) != '['
        invariant
            i <= n,
            n == message@.len(),
            bracketed_name(message@) == bracketed_name(message@.skip(i as int)),
        decreases n - i,
    {
        proof {
            assert(message@.skip(i as int).skip(1) =~= message@.skip(i as int + 1));
        }
        i = i + 1;
    }
    if i == n {
        proof {
            assert(message@.skip(n as int) =~= Seq::<char>::empty());
        }
        return Err(GenError::Parse);
    }
    let start = i + 1;
    proof {
        assert(message@.skip(i as int).skip(1) =~= message@.skip(start as int));
        assert(bracketed_name(message@) == Some(until_close(message@.skip(start as int))));
        assert(message@.subrange(start as int, start as int)
            + until_close(message@.skip(start as int)) =~= until_close(
            message@.skip(start as int),
        ));
    }
    let mut j = start;
    while j < n && message.get_char(j) != ']'
        invariant
            start <= j <= n,
            n == message@.len(),
            until_close(message@.skip(start as int)) == message@.subrange(
                start as int,
                j as int,
            ) + until_close(message@.skip(j as int)),
        decreases n - j,
    {
        proof {
            assert(message@.skip(j as int).skip(1) =~= message@.skip(j as int + 1));
            assert(message@.subrange(start as int, j as int) + (seq![message@[j as int]]
                + until_close(message@.skip(j as int + 1))) =~= message@.subrange(
                start as int,
                j as int + 1,
            ) + until_close(message@.skip(j as int + 1)));
        }
        j = j + 1;
    }
    proof {
        if j == n {
            assert(message@.skip(n as int) =~= Seq::<char>::empty());
        }
        assert(message@.subrange(start as int, j as int) + Seq::<char>::empty()
            =~= message@.subrange(start as int, j as int));
    }
    let piece = message.substring_char(start, j);
    Ok(piece.to_owned())
}

/// What one provider outcome means for the attempt: the extracted name, or
/// the kind of failure to retry on.
pub open spec fn classify(out: GenOutcome) -> Result<Seq<char>, GenError> {
    match out {
        GenOutcome::Content(s) => match bracketed_name(s@) {
            Some(name) => Ok(name),
            None => Err(GenError::Parse),
        },
        GenOutcome::NoChoice => Err(GenError::EmptyCompletion),
        GenOutcome::Failure => Err(GenError::Provider),
    }
}

/// Turns one provider outcome into the generated name or the failure kind.
pub fn classify_outcome(out: GenOutcome) -> (r: Result<String, GenError>)
    ensures
        match r {
            Ok(name) => classify(out) == Ok::<Seq<char>, GenError>(name@),
            Err(e) => classify(out) == Err::<Seq<char>, GenError>(e),
        },
{
    match out {
        GenOutcome::Content(s) => extract_name(s.as_str()),
        GenOutcome::NoChoice => Err(GenError::EmptyCompletion),
        GenOutcome::Failure => Err(GenError::Provider),
    }
}

/// The user instruction for one member, built around the member's current
/// account name.
pub open spec fn prompt_text(name: Seq<char>) -> Seq<char> {
    "Rewrite the name "@ + name + " to be a bread related pun."@
}

/// Builds the user instruction for one member.
pub fn build_prompt(name: &str) -> (r: String)
    ensures
        r@ == prompt_text(name@),
{
    let mut p = String::from_str("Rewrite the name ");
    p.append(name);
    p.append(" to be a bread related pun.");
    p
}

/// The fixed system instruction: the pun style asked for, and the output
/// format — a name wrapped in `[` and `]`.
pub open spec fn system_prompt_text() -> Seq<char> {
    "You are a professional pun writer that specialized in bread puns. you are very creative. Your response contains the name encapsulated in []. for example [name_1]. be sure to have a very creative name but have it still adjacent to the original name. and keep in mind the format as it is very important.  example(s):

user: Rewrite the name Bradix to be a bread related pun.
assistant: [Breadix].

user: Rewrite the name AlbyPro to be a bread related pun.
assistant: [AlbyDough].
"@
}

/// The fixed system instruction as a string.
pub fn system_prompt() -> (r: &'static str)
    ensures
        r@ == system_prompt_text(),
{
    "You are a professional pun writer that specialized in bread puns. you are very creative. Your response contains the name encapsulated in []. for example [name_1]. be sure to have a very creative name but have it still adjacent to the original name. and keep in mind the format as it is very important.  example(s):

user: Rewrite the name Bradix to be a bread related pun.
assistant: [Breadix].

user: Rewrite the name AlbyPro to be a bread related pun.
assistant: [AlbyDough].
"
}

/// The stop string handed to the provider: generation ends at the first `]`,
/// a cheap bound on the output length.
pub fn stop_sequence() -> (r: &'static str)
    ensures
        r@ == seq![']'],
{
    proof {
        reveal_strlit("]");
        assert(("]")@ =~= seq![']']);
    }
    "]"
}

/// Character-for-character equality of two strings.
pub fn str_eq(a: &str, b: &str) -> (r: bool)
    ensures
        r == (a@ == b@),
{
    let n = a.unicode_len();
    let m = b.unicode_len();
    if n != m {
        return false;
    }
    let mut i: usize = 0;
    while i < n
        invariant
            i <= n,
            n == a@.len(),
            n == b@.len(),
            forall|k: int| 0 <= k < i ==> a@[k] == b@[k],
        decreases n - i,
    {
        if a.get_char(i) != b.get_char(i) {
            return false;
        }
        i = i + 1;
    }
    proof {
        assert(a@ =~= b@);
    }
    true
}

/// Whether a command name is the single registered command.
pub fn is_rename_command(name: &str) -> (r: bool)
    ensures
        r == (name@ == "rename"@),
{
    str_eq(name, "rename")
}

} // verus!
