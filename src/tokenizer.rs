//! Splits one input line into shell words, honouring single quotes, double
//! quotes and backslash escapes.
use vstd::prelude::*;

verus! {

/// Where the scanner stands with respect to quoting.
#[derive(Clone, Copy, Debug, PartialEq, Eq, Structural)]
pub enum QuoteState {
    Unquoted,
    SingleQuoted,
    DoubleQuoted,
}

/// The view of a list of strings as a sequence of character sequences.
pub open spec fn words(v: Seq<String>) -> Seq<Seq<char>> {
    v.map_values(|s: String| s@)
}

/// A character that a backslash escapes inside double quotes.
pub open spec fn escapable_in_double(c: char) -> bool {
    c == '\\' || c == '$' || c == '"' || c == '\n'
}

/// Ends the current word: it joins the finished words when it is non-empty.
pub open spec fn flush(done: Seq<Seq<char>>, cur: Seq<char>) -> Seq<Seq<char>> {
    if cur.len() > 0 {
        done.push(cur)
    } else {
        done
    }
}

/// The words produced by scanning `rest` in quote state `q`, with `cur` the
/// word being built and `done` the words already finished.
pub open spec fn scan(
    rest: Seq<char>,
    q: QuoteState,
    cur: Seq<char>,
    done: Seq<Seq<char>>,
) -> Seq<Seq<char>>
    decreases rest.len(),
{
    if rest.len() == 0 {
        flush(done, cur)
    } else {
        let c = rest[0];
        if c == '\'' {
            match q {
                QuoteState::Unquoted => scan(rest.skip(1), QuoteState::SingleQuoted, cur, done),
                QuoteState::SingleQuoted => scan(rest.skip(1), QuoteState::Unquoted, cur, done),
                QuoteState::DoubleQuoted => scan(rest.skip(1), q, cur.push(c), done),
            }
        } else if c == '"' {
            match q {
                QuoteState::Unquoted => scan(rest.skip(1), QuoteState::DoubleQuoted, cur, done),
                QuoteState::DoubleQuoted => scan(rest.skip(1), QuoteState::Unquoted, cur, done),
                QuoteState::SingleQuoted => scan(rest.skip(1), q, cur.push(c), done),
            }
        } else if c == '\\' {
            match q {
                QuoteState::DoubleQuoted => if rest.len() > 1 && escapable_in_double(rest[1]) {
                    scan(rest.skip(2), q, cur.push(rest[1]), done)
                } else {
                    scan(rest.skip(1), q, cur.push(c), done)
                },
                QuoteState::Unquoted => if rest.len() > 1 {
                    scan(rest.skip(2), q, cur.push(rest[1]), done)
                } else {
                    scan(rest.skip(1), q, cur.push(c), done)
                },
                QuoteState::SingleQuoted => scan(rest.skip(1), q, cur.push(c), done),
            }
        } else if c == ' ' && q == QuoteState::Unquoted {
            scan(rest.skip(1), q, Seq::empty(), flush(done, cur))
        } else {
            scan(rest.skip(1), q, cur.push(c), done)
        }
    }
}

/// The words of a whole line: a scan from the start, outside any quotes.
pub open spec fn tokens_of(line: Seq<char>) -> Seq<Seq<char>> {
    scan(line, QuoteState::Unquoted, Seq::empty(), Seq::empty())
}

/// Whether a backslash inside double quotes escapes `c`.
fn is_escapable_in_double(c: char) -> (r: bool)
    ensures
        r == escapable_in_double(c),
{
    c == '\\' || c == '$' || c == '"' || c == '\n'
}

/// The words joined with a single space between neighbours.
pub open spec fn join_words(w: Seq<Seq<char>>) -> Seq<char>
    decreases w.len(),
{
    if w.len() == 0 {
        Seq::empty()
    } else if w.len() == 1 {
        w[0]
    } else {
        join_words(w.drop_last()) + seq![' '] + w.last()
    }
}

/// A character that the scanner copies as it is in every quote state and
/// that never ends a word.
pub open spec fn is_plain(c: char) -> bool {
    c != ' ' && c != '\'' && c != '"' && c != '\\'
}

/// Non-empty words made of plain characters only.
pub open spec fn plain_words(w: Seq<Seq<char>>) -> bool {
    forall|i: int, j: int| 0 <= i < w.len() && 0 <= j < w[i].len() ==> #[trigger] is_plain(w[i][j])
}

/// Every word holds at least one character.
pub open spec fn all_non_empty(w: Seq<Seq<char>>) -> bool {
    forall|i: int| 0 <= i < w.len() ==> #[trigger] w[i].len() > 0
}

proof fn lemma_scan_plain(word: Seq<char>, rest: Seq<char>, cur: Seq<char>, done: Seq<Seq<char>>)
    requires
        forall|j: int| 0 <= j < word.len() ==> #[trigger] is_plain(word[j]),
    ensures
        scan(word + rest, QuoteState::Unquoted, cur, done) == scan(
            rest,
            QuoteState::Unquoted,
            cur + word,
            done,
        ),
    decreases word.len(),
{
    if word.len() == 0 {
        assert(word + rest =~= rest);
        assert(cur + word =~= cur);
    } else {
        let s = word + rest;
        assert(s[0] == word[0]);
        assert(is_plain(word[0]));
        assert(s.skip(1) =~= word.skip(1) + rest);
        assert forall|j: int| 0 <= j < word.skip(1).len() implies #[trigger] is_plain(
            word.skip(1)[j],
        ) by {
            assert(word.skip(1)[j] == word[j + 1]);
        }
        lemma_scan_plain(word.skip(1), rest, cur.push(word[0]), done);
        assert(cur.push(word[0]) + word.skip(1) =~= cur + word);
    }
}

proof fn lemma_scan_joined(w: Seq<Seq<char>>, rest: Seq<char>, done: Seq<Seq<char>>)
    requires
        w.len() > 0,
        plain_words(w),
        all_non_empty(w),
    ensures
        scan(join_words(w) + rest, QuoteState::Unquoted, Seq::empty(), done) == scan(
            rest,
            QuoteState::Unquoted,
            w.last(),
            done + w.drop_last(),
        ),
    decreases w.len(),
{
    let last = w.last();
    assert forall|j: int| 0 <= j < last.len() implies #[trigger] is_plain(last[j]) by {
        assert(is_plain(w[w.len() - 1][j]));
    }
    if w.len() == 1 {
        lemma_scan_plain(last, rest, Seq::empty(), done);
        assert(Seq::<char>::empty() + last =~= last);
        assert(done + w.drop_last() =~= done);
    } else {
        let init = w.drop_last();
        assert(plain_words(init)) by {
            assert forall|i: int, j: int| 0 <= i < init.len() && 0 <= j < init[i].len()
                implies #[trigger] is_plain(init[i][j]) by {
                assert(init[i] == w[i]);
            }
        }
        assert(all_non_empty(init)) by {
            assert forall|i: int| 0 <= i < init.len() implies #[trigger] init[i].len() > 0 by {
                assert(init[i] == w[i]);
            }
        }
        let tail = seq![' '] + last + rest;
        assert(join_words(w) + rest =~= join_words(init) + tail);
        lemma_scan_joined(init, tail, done);
        let prev = init.last();
        assert(prev.len() > 0) by {
            assert(prev == w[w.len() - 2]);
        }
        let done2 = done + init.drop_last();
        assert(tail[0] == ' ');
        assert(tail.skip(1) =~= last + rest);
        assert(scan(tail, QuoteState::Unquoted, prev, done2) == scan(
            last + rest,
            QuoteState::Unquoted,
            Seq::empty(),
            done2.push(prev),
        ));
        lemma_scan_plain(last, rest, Seq::empty(), done2.push(prev));
        assert(Seq::<char>::empty() + last =~= last);
        assert(done2.push(prev) =~= done + w.drop_last());
    }
}

/// Splitting words that were joined with single spaces gives the words back,
/// when each is non-empty and holds no space, quote or backslash.
pub proof fn lemma_split_joined(w: Seq<Seq<char>>)
    requires
        plain_words(w),
        all_non_empty(w),
    ensures
        tokens_of(join_words(w)) == w,
{
    if w.len() == 0 {
        assert(flush(Seq::empty(), Seq::empty()) =~= w);
    } else {
        lemma_scan_joined(w, Seq::empty(), Seq::empty());
        assert(join_words(w) + Seq::<char>::empty() =~= join_words(w));
        assert(Seq::<Seq<char>>::empty() + w.drop_last() =~= w.drop_last());
        assert(w.drop_last().push(w.last()) =~= w);
    }
}

proof fn lemma_scan_non_empty(rest: Seq<char>, q: QuoteState, cur: Seq<char>, done: Seq<Seq<char>>)
    requires
        all_non_empty(done),
    ensures
        all_non_empty(scan(rest, q, cur, done)),
    decreases rest.len(),
{
    if rest.len() > 0 {
        let c = rest[0];
        if c == '\'' || c == '"' {
            lemma_scan_non_empty(rest.skip(1), QuoteState::Unquoted, cur, done);
            lemma_scan_non_empty(rest.skip(1), QuoteState::SingleQuoted, cur, done);
            lemma_scan_non_empty(rest.skip(1), QuoteState::DoubleQuoted, cur, done);
            lemma_scan_non_empty(rest.skip(1), q, cur.push(c), done);
        } else if c == '\\' {
            if rest.len() > 1 {
                lemma_scan_non_empty(rest.skip(2), q, cur.push(rest[1]), done);
            }
            lemma_scan_non_empty(rest.skip(1), q, cur.push(c), done);
        } else if c == ' ' && q == QuoteState::Unquoted {
            let d = flush(done, cur);
            assert(all_non_empty(d)) by {
                assert forall|i: int| 0 <= i < d.len() implies #[trigger] d[i].len() > 0 by {
                    if i < done.len() {
                        assert(d[i] == done[i]);
                    }
                }
            }
            lemma_scan_non_empty(rest.skip(1), q, Seq::empty(), d);
        } else {
            lemma_scan_non_empty(rest.skip(1), q, cur.push(c), done);
        }
    } else {
        let d = flush(done, cur);
        assert forall|i: int| 0 <= i < d.len() implies #[trigger] d[i].len() > 0 by {
            if i < done.len() {
                assert(d[i] == done[i]);
            }
        }
    }
}

/// Joining the words of a line with single spaces and splitting the result
/// again gives the same words, provided no word holds a space, a quote or a
/// backslash.
pub proof fn lemma_rejoin_stable(line: Seq<char>)
    requires
        plain_words(tokens_of(line)),
    ensures
        tokens_of(join_words(tokens_of(line))) == tokens_of(line),
{
    lemma_scan_non_empty(line, QuoteState::Unquoted, Seq::empty(), Seq::empty());
    lemma_split_joined(tokens_of(line));
}

/// Appends the character of `s` at position `i` to `buf`.
fn push_char_at(buf: &mut String, s: &str, i: usize)
    requires
        i < s@.len() <= usize::MAX,
    ensures
        final(buf)@ == old(buf)@.push(s@[i as int]),
{
    let piece = s.substring_char(i, i + 1);
    buf.append(piece);
    assert(final(buf)@ =~= old(buf)@.push(s@[i as int]));
}

/// Splits `input` into words. An unquoted space ends a word; quotes group
/// characters and are removed; a backslash escapes the next character outside
/// quotes, and only `\`, `$`, `"` and a newline inside double quotes. A quote
/// left open at the end of the line is tolerated: what was read is kept.
pub fn parse_command(input: &str) -> (tokens: Vec<String>)
    ensures
        words(tokens@) == tokens_of(input@),
{
    let n = input.unicode_len();
    let mut tokens: Vec<String> = Vec::new();
    let mut current = String::new();
    let mut state = QuoteState::Unquoted;
    let mut i: usize = 0;
    assert(input@.skip(0) =~= input@);
    assert(words(tokens@) =~= Seq::<Seq<char>>::empty());
    while i < n
        invariant
            n == input@.len(),
            i <= n,
            scan(input@.skip(i as int), state, current@, words(tokens@)) == tokens_of(input@),
        decreases n - i,
    {
        let ghost rest = input@.skip(i as int);
        let ghost done = words(tokens@);
        let ghost cur0 = current@;
        let c = input.get_char(i);
        assert(rest[0] == c);
        assert(rest.skip(1) =~= input@.skip(i + 1));
        if c == '\'' {
            match state {
                QuoteState::Unquoted => state = QuoteState::SingleQuoted,
                QuoteState::SingleQuoted => state = QuoteState::Unquoted,
                QuoteState::DoubleQuoted => push_char_at(&mut current, input, i),
            }
            i = i + 1;
        } else if c == '"' {
            match state {
                QuoteState::Unquoted => state = QuoteState::DoubleQuoted,
                QuoteState::DoubleQuoted => state = QuoteState::Unquoted,
                QuoteState::SingleQuoted => push_char_at(&mut current, input, i),
            }
            i = i + 1;
        } else if c == '\\' {
            match state {
                QuoteState::DoubleQuoted => {
                    if i + 1 < n && is_escapable_in_double(input.get_char(i + 1)) {
                        assert(rest[1] == input@[i + 1]);
                        assert(rest.skip(2) =~= input@.skip(i + 2));
                        push_char_at(&mut current, input, i + 1);
                        i = i + 2;
                    } else {
                        push_char_at(&mut current, input, i);
                        i = i + 1;
                    }
                },
                QuoteState::Unquoted => {
                    if i + 1 < n {
                        assert(rest[1] == input@[i + 1]);
                        assert(rest.skip(2) =~= input@.skip(i + 2));
                        push_char_at(&mut current, input, i + 1);
                        i = i + 2;
                    } else {
                        push_char_at(&mut current, input, i);
                        i = i + 1;
                    }
                },
                QuoteState::SingleQuoted => {
                    push_char_at(&mut current, input, i);
                    i = i + 1;
                },
            }
        } else if c == ' ' && state == QuoteState::Unquoted {
            if !current.as_str().is_empty() {
                tokens.push(current);
                assert(words(tokens@) =~= done.push(current@));
                current = String::new();
            } else {
                assert(cur0 =~= Seq::<char>::empty());
            }
            i = i + 1;
        } else {
            push_char_at(&mut current, input, i);
            i = i + 1;
        }
    }
    assert(input@.skip(i as int) =~= Seq::<char>::empty());
    if !current.as_str().is_empty() {
        let ghost done = words(tokens@);
        tokens.push(current);
        assert(words(tokens@) =~= done.push(current@));
    }
    tokens
}

} // verus!
