//! The commands that the interpreter runs itself, and the text they produce.
use vstd::prelude::*;

use crate::text::is_word;
use crate::tokenizer::{join_words, words};

verus! {

/// The builtin commands.
#[derive(Clone, Copy, Debug, PartialEq, Eq, Structural)]
pub enum Builtin {
    Echo,
    Exit,
    Type,
    Pwd,
    Cd,
}

/// The builtin that `name` names exactly, if any.
pub open spec fn builtin_of(name: Seq<char>) -> Option<Builtin> {
    if name == "echo"@ {
        Some(Builtin::Echo)
    } else if name == "exit"@ {
        Some(Builtin::Exit)
    } else if name == "type"@ {
        Some(Builtin::Type)
    } else if name == "pwd"@ {
        Some(Builtin::Pwd)
    } else if name == "cd"@ {
        Some(Builtin::Cd)
    } else {
        None
    }
}

/// Looks `name` up among the builtins, by exact match.
pub fn builtin_named(name: &String) -> (r: Option<Builtin>)
    ensures
        r == builtin_of(name@),
{
    if is_word(name, "echo") {
        Some(Builtin::Echo)
    } else if is_word(name, "exit") {
        Some(Builtin::Exit)
    } else if is_word(name, "type") {
        Some(Builtin::Type)
    } else if is_word(name, "pwd") {
        Some(Builtin::Pwd)
    } else if is_word(name, "cd") {
        Some(Builtin::Cd)
    } else {
        None
    }
}

/// Joins the words of `v` from position `start` on, with one space between
/// neighbours.
pub fn join_from(v: &Vec<String>, start: usize) -> (r: String)
    requires
        start <= v.len(),
    ensures
        r@ == join_words(words(v@).skip(start as int)),
{
    let ghost w = words(v@);
    let mut r = String::new();
    let mut i: usize = start;
    while i < v.len()
        invariant
            w == words(v@),
            start <= i <= v.len(),
            r@ == join_words(w.subrange(start as int, i as int)),
        decreases v.len() - i,
    {
        let ghost sub = w.subrange(start as int, i as int + 1);
        assert(sub.drop_last() =~= w.subrange(start as int, i as int));
        assert(sub.last() == v@[i as int]@);
        if i > start {
            r.append(" ");
            proof {
                reveal_strlit(" ");
            }
            assert(" "@ =~= seq![' ']);
        } else {
            assert(r@ =~= Seq::<char>::empty());
        }
        r.append(v[i].as_str());
        if i == start {
            assert(r@ =~= sub[0]);
        }
        i = i + 1;
    }
    assert(w.subrange(start as int, v.len() as int) =~= w.skip(start as int));
    r
}

/// What `echo` writes: its arguments joined with single spaces, and a newline.
pub open spec fn echo_text(args: Seq<Seq<char>>) -> Seq<char> {
    join_words(args) + "\n"@
}

/// The line that `type` reports for a builtin.
pub open spec fn builtin_line(name: Seq<char>) -> Seq<char> {
    name + " is a shell builtin"@
}

/// The line that `type` reports for a builtin.
pub fn builtin_report(name: &String) -> (r: String)
    ensures
        r@ == builtin_line(name@),
{
    name.clone().concat(" is a shell builtin")
}

/// The line that `type` reports once the search path was looked through:
/// the first executable found, or that there is none.
pub fn type_report(name: &String, found: Option<String>) -> (r: String)
    ensures
        r@ == match found {
            Some(p) => name@ + " is "@ + p@,
            None => name@ + ": not found"@,
        },
{
    match found {
        Some(p) => name.clone().concat(" is ").concat(p.as_str()),
        None => name.clone().concat(": not found"),
    }
}

/// The entries of a colon-separated list; an empty list has one empty entry.
pub open spec fn split_colons(s: Seq<char>) -> Seq<Seq<char>>
    decreases s.len(),
{
    if s.len() == 0 {
        seq![Seq::empty()]
    } else {
        let parts = split_colons(s.drop_last());
        if s.last() == ':' {
            parts.push(Seq::empty())
        } else {
            parts.update(parts.len() - 1, parts.last().push(s.last()))
        }
    }
}

/// The path of `name` inside directory `dir`: an absolute name stands for
/// itself, an empty directory adds nothing, and one `/` separates the two.
pub open spec fn join_dir(dir: Seq<char>, name: Seq<char>) -> Seq<char> {
    if name.len() > 0 && name[0] == '/' {
        name
    } else if dir.len() == 0 {
        name
    } else if dir.last() == '/' {
        dir + name
    } else {
        dir + "/"@ + name
    }
}

fn join_dir_text(dir: &String, name: &String) -> (r: String)
    ensures
        r@ == join_dir(dir@, name@),
{
    let d = dir.as_str();
    let nm = name.as_str();
    let dn = d.unicode_len();
    let nn = nm.unicode_len();
    if nn > 0 && nm.get_char(0) == '/' {
        name.clone()
    } else if dn == 0 {
        name.clone()
    } else if d.get_char(dn - 1) == '/' {
        dir.clone().concat(nm)
    } else {
        dir.clone().concat("/").concat(nm)
    }
}

/// The paths at which `type` looks for `name`, one for each entry of the
/// colon-separated `path_list`, in order.
pub fn search_candidates(path_list: &str, name: &String) -> (r: Vec<String>)
    ensures
        words(r@) == split_colons(path_list@).map_values(|d: Seq<char>| join_dir(d, name@)),
{
    let n = path_list.unicode_len();
    let ghost s = path_list@;
    let mut out: Vec<String> = Vec::new();
    let mut cur = String::new();
    let mut i: usize = 0;
    assert(s.take(0) =~= Seq::<char>::empty());
    assert(words(out@) =~= Seq::<Seq<char>>::empty());
    while i < n
        invariant
            n == s.len(),
            s == path_list@,
            i <= n,
            split_colons(s.take(i as int)).len() >= 1,
            cur@ == split_colons(s.take(i as int)).last(),
            words(out@) == split_colons(s.take(i as int)).drop_last().map_values(
                |d: Seq<char>| join_dir(d, name@),
            ),
        decreases n - i,
    {
        let ghost prev = split_colons(s.take(i as int));
        let ghost next_prefix = s.take(i as int + 1);
        assert(next_prefix.drop_last() =~= s.take(i as int));
        let c = path_list.get_char(i);
        assert(next_prefix.last() == c);
        if c == ':' {
            let ghost before = words(out@);
            let entry = join_dir_text(&cur, name);
            out.push(entry);
            assert(words(out@) =~= before.push(entry@));
            assert(split_colons(next_prefix) == prev.push(Seq::<char>::empty()));
            assert(prev.push(Seq::<char>::empty()).drop_last().map_values(
                |d: Seq<char>| join_dir(d, name@),
            ) =~= before.push(join_dir(prev.last(), name@)));
            cur = String::new();
        } else {
            cur.append(path_list.substring_char(i, i + 1));
            let ghost next = prev.update(prev.len() - 1, prev.last().push(c));
            assert(split_colons(next_prefix) == next);
            assert(next.drop_last() =~= prev.drop_last());
        }
        i = i + 1;
    }
    assert(s.take(n as int) =~= s);
    let ghost parts = split_colons(s);
    let ghost before = words(out@);
    let entry = join_dir_text(&cur, name);
    out.push(entry);
    assert(words(out@) =~= before.push(entry@));
    assert(parts.drop_last().push(parts.last()) =~= parts);
    assert(parts.map_values(|d: Seq<char>| join_dir(d, name@)) =~= before.push(
        join_dir(parts.last(), name@),
    ));
    out
}

/// Where `cd` is asked to go: an absolute path, the home directory (`~`), or a
/// path relative to the working directory.
#[derive(Clone, Debug, PartialEq, Eq)]
pub enum CdTarget {
    Absolute(String),
    Home,
    Relative(String),
}

/// The target that the argument of `cd` names: an argument that starts with
/// `/` is absolute, `~` alone is the home directory, anything else is relative.
pub open spec fn cd_target_of(arg: Seq<char>, t: CdTarget) -> bool {
    if arg.len() > 0 && arg[0] == '/' {
        t matches CdTarget::Absolute(p) && p@ == arg
    } else if arg == "~"@ {
        t is Home
    } else {
        t matches CdTarget::Relative(p) && p@ == arg
    }
}

/// Classifies the argument of `cd`.
pub fn cd_target(arg: &String) -> (t: CdTarget)
    ensures
        cd_target_of(arg@, t),
{
    let a = arg.as_str();
    if a.unicode_len() > 0 && a.get_char(0) == '/' {
        CdTarget::Absolute(arg.clone())
    } else if is_word(arg, "~") {
        CdTarget::Home
    } else {
        CdTarget::Relative(arg.clone())
    }
}

/// How a target is named in messages.
pub open spec fn cd_target_text(t: CdTarget) -> Seq<char> {
    match t {
        CdTarget::Absolute(p) => p@,
        CdTarget::Home => "~"@,
        CdTarget::Relative(p) => p@,
    }
}

/// The line that reports a failed change of directory; the working directory
/// is then left as it was.
pub fn cd_failure(target: &CdTarget) -> (r: String)
    ensures
        r@ == "cd: "@ + cd_target_text(*target) + ": No such file or directory"@,
{
    let shown = match target {
        CdTarget::Absolute(p) => p.clone(),
        CdTarget::Home => String::from_str("~"),
        CdTarget::Relative(p) => p.clone(),
    };
    String::from_str("cd: ").concat(shown.as_str()).concat(": No such file or directory")
}

/// The line that reports that the working directory could not be read.
pub fn pwd_failure(detail: &String) -> (r: String)
    ensures
        r@ == "Error getting current directory: "@ + detail@,
{
    String::from_str("Error getting current directory: ").concat(detail.as_str())
}

} // verus!
