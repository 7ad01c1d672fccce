//! Separates the words of a command from an output redirection.
use vstd::prelude::*;

use crate::text::is_word;
use crate::tokenizer::words;

verus! {

/// The output stream that a redirection diverts.
#[derive(Clone, Copy, Debug, PartialEq, Eq, Structural)]
pub enum Stream {
    Stdout,
    Stderr,
}

/// How the target file is opened.
#[derive(Clone, Copy, Debug, PartialEq, Eq, Structural)]
pub enum WriteMode {
    /// Create the file or empty it.
    Truncate,
    /// Create the file if absent and write at its end.
    Append,
}

/// One output redirection: which stream goes to which file, and how.
#[derive(Clone, Debug, PartialEq, Eq)]
pub struct Redirection {
    pub stream: Stream,
    pub mode: WriteMode,
    pub target: String,
}

/// A redirection as a value: which stream, how, and the target's text.
pub struct RedirectionView {
    pub stream: Stream,
    pub mode: WriteMode,
    pub target: Seq<char>,
}

impl View for Redirection {
    type V = RedirectionView;

    open spec fn view(&self) -> RedirectionView {
        RedirectionView { stream: self.stream, mode: self.mode, target: self.target@ }
    }
}

/// The view of a redirection that may be absent.
pub open spec fn redirection_view(r: Option<Redirection>) -> Option<RedirectionView> {
    match r {
        Some(x) => Some(x@),
        None => None,
    }
}

/// Why a line's redirection cannot be applied.
#[derive(Clone, Copy, Debug, PartialEq, Eq, Structural)]
pub enum RedirectError {
    /// An operator stands last, with no file after it.
    MissingTarget,
}

/// The operator classes, in the order in which they are looked for.
#[derive(Clone, Copy, Debug, PartialEq, Eq, Structural)]
pub enum OperatorClass {
    /// `>` or `1>`
    StdoutTruncate,
    /// `2>`
    StderrTruncate,
    /// `>>` or `1>>`
    StdoutAppend,
}

impl OperatorClass {
    /// The stream that operators of this class divert.
    pub open spec fn stream(self) -> Stream {
        match self {
            OperatorClass::StderrTruncate => Stream::Stderr,
            _ => Stream::Stdout,
        }
    }

    /// How operators of this class open their target.
    pub open spec fn mode(self) -> WriteMode {
        match self {
            OperatorClass::StdoutAppend => WriteMode::Append,
            _ => WriteMode::Truncate,
        }
    }
}

/// Whether the word `t` is an operator of class `k`.
pub open spec fn is_operator(t: Seq<char>, k: OperatorClass) -> bool {
    match k {
        OperatorClass::StdoutTruncate => t == ">"@ || t == "1>"@,
        OperatorClass::StderrTruncate => t == "2>"@,
        OperatorClass::StdoutAppend => t == ">>"@ || t == "1>>"@,
    }
}

/// The position of the first operator of class `k` in `toks`, or the length
/// of `toks` when there is none.
pub open spec fn first_operator(toks: Seq<Seq<char>>, k: OperatorClass) -> int
    decreases toks.len(),
{
    if toks.len() == 0 {
        0
    } else if is_operator(toks[0], k) {
        0
    } else {
        1 + first_operator(toks.skip(1), k)
    }
}

/// Whether an operator of class `k` occurs among `toks`.
pub open spec fn has_operator(toks: Seq<Seq<char>>, k: OperatorClass) -> bool {
    first_operator(toks, k) < toks.len()
}

/// The class whose operator is honoured: the first class, in the fixed order,
/// that occurs at all in `toks`.
pub open spec fn honored_class(toks: Seq<Seq<char>>) -> Option<OperatorClass> {
    if has_operator(toks, OperatorClass::StdoutTruncate) {
        Some(OperatorClass::StdoutTruncate)
    } else if has_operator(toks, OperatorClass::StderrTruncate) {
        Some(OperatorClass::StderrTruncate)
    } else if has_operator(toks, OperatorClass::StdoutAppend) {
        Some(OperatorClass::StdoutAppend)
    } else {
        None
    }
}

/// What extraction gives for the words `toks`: the command's words and the
/// honoured redirection, or the error.
pub open spec fn extraction(toks: Seq<Seq<char>>) -> Result<
    (Seq<Seq<char>>, Option<RedirectionView>),
    RedirectError,
> {
    match honored_class(toks) {
        None => Ok((toks, None)),
        Some(k) => {
            let p = first_operator(toks, k);
            if p + 1 < toks.len() {
                Ok(
                    (
                        toks.take(p),
                        Some(RedirectionView { stream: k.stream(), mode: k.mode(), target: toks[p + 1] }),
                    ),
                )
            } else {
                Err(RedirectError::MissingTarget)
            }
        },
    }
}

proof fn lemma_first_operator_at(toks: Seq<Seq<char>>, k: OperatorClass, p: int)
    requires
        0 <= p <= toks.len(),
        forall|j: int| 0 <= j < p ==> !is_operator(#[trigger] toks[j], k),
        p == toks.len() || is_operator(toks[p], k),
    ensures
        first_operator(toks, k) == p,
    decreases p,
{
    if p > 0 {
        let rest = toks.skip(1);
        assert forall|j: int| 0 <= j < p - 1 implies !is_operator(#[trigger] rest[j], k) by {
            assert(rest[j] == toks[j + 1]);
        }
        if p < toks.len() {
            assert(rest[p - 1] == toks[p]);
        }
        lemma_first_operator_at(rest, k, p - 1);
        assert(!is_operator(toks[0], k));
    }
}

proof fn lemma_first_operator_bounds(toks: Seq<Seq<char>>, k: OperatorClass)
    ensures
        0 <= first_operator(toks, k) <= toks.len(),
    decreases toks.len(),
{
    if toks.len() > 0 {
        lemma_first_operator_bounds(toks.skip(1), k);
    }
}

fn matches_operator(t: &String, k: OperatorClass) -> (r: bool)
    ensures
        r == is_operator(t@, k),
{
    match k {
        OperatorClass::StdoutTruncate => is_word(t, ">") || is_word(t, "1>"),
        OperatorClass::StderrTruncate => is_word(t, "2>"),
        OperatorClass::StdoutAppend => is_word(t, ">>") || is_word(t, "1>>"),
    }
}

/// Finds the first operator of class `k` in `tokens`.
fn find_operator(tokens: &Vec<String>, k: OperatorClass) -> (r: usize)
    ensures
        r == first_operator(words(tokens@), k),
{
    let ghost toks = words(tokens@);
    let mut i: usize = 0;
    while i < tokens.len()
        invariant
            toks == words(tokens@),
            i <= tokens.len(),
            forall|j: int| 0 <= j < i ==> !is_operator(#[trigger] toks[j], k),
        decreases tokens.len() - i,
    {
        if matches_operator(&tokens[i], k) {
            proof {
                lemma_first_operator_at(toks, k, i as int);
            }
            return i;
        }
        i = i + 1;
    }
    proof {
        lemma_first_operator_at(toks, k, i as int);
    }
    i
}

/// Splits `tokens` into the words of the command and at most one output
/// redirection. Operators are whole words; `>`/`1>` is looked for first, then
/// `2>`, then `>>`/`1>>`, and only the first class found is honoured, at its
/// first occurrence. The command is what precedes the operator, the target is
/// the word right after it, and whatever follows the target is dropped. An
/// operator with no word after it is an error. Without an operator, the
/// command is all of `tokens`.
pub fn extract_redirections(tokens: &Vec<String>) -> (r: Result<
    (Vec<String>, Option<Redirection>),
    RedirectError,
>)
    ensures
        match r {
            Ok((cmd, red)) => extraction(words(tokens@)) == Ok::<
                (Seq<Seq<char>>, Option<RedirectionView>),
                RedirectError,
            >((words(cmd@), redirection_view(red))),
            Err(e) => extraction(words(tokens@)) == Err::<
                (Seq<Seq<char>>, Option<RedirectionView>),
                RedirectError,
            >(e),
        },
{
    let ghost toks = words(tokens@);
    let n = tokens.len();
    let mut k = OperatorClass::StdoutTruncate;
    let mut p = find_operator(tokens, k);
    if p == n {
        k = OperatorClass::StderrTruncate;
        p = find_operator(tokens, k);
        if p == n {
            k = OperatorClass::StdoutAppend;
            p = find_operator(tokens, k);
            if p == n {
                return Ok((tokens.clone(), None));
            }
        }
    }
    proof {
        lemma_first_operator_bounds(toks, k);
    }
    if p + 1 >= n {
        return Err(RedirectError::MissingTarget);
    }
    let mut cmd: Vec<String> = Vec::new();
    let mut i: usize = 0;
    while i < p
        invariant
            toks == words(tokens@),
            p < tokens.len(),
            i <= p,
            words(cmd@) == toks.take(i as int),
        decreases p - i,
    {
        let ghost before = cmd@;
        let t = tokens[i].clone();
        cmd.push(t);
        assert(cmd@ == before.push(t));
        assert(t@ == toks[i as int]);
        assert(words(before).len() == i);
        assert(words(cmd@).len() == i + 1);
        assert forall|j: int| 0 <= j < i implies #[trigger] words(cmd@)[j] == toks[j] by {
            assert(words(before)[j] == toks.take(i as int)[j]);
        }
        assert(words(cmd@) =~= toks.take(i + 1));
        i = i + 1;
    }
    let red = Redirection {
        stream: match k {
            OperatorClass::StderrTruncate => Stream::Stderr,
            _ => Stream::Stdout,
        },
        mode: match k {
            OperatorClass::StdoutAppend => WriteMode::Append,
            _ => WriteMode::Truncate,
        },
        target: tokens[p + 1].clone(),
    };
    Ok((cmd, Some(red)))
}

} // verus!
