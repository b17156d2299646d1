//! The resolver: a command name maps to a builtin, to the path of the
//! first matching executable on PATH, or to nothing. The resolver works
//! on plain values: the caller supplies the PATH directories and, for
//! each, whether an executable of the wanted name sits in it, so the
//! search order and its outcome are fully specified here.
use vstd::prelude::*;
use vstd::string::StrSliceExecFns;
use vstd::string::StringExecFns;

use crate::strutil::{str_eq, strs_view};

verus! {

/// What a command name resolves to: a builtin, an external executable
/// (by path), or nothing.
#[derive(Debug, PartialEq, Eq)]
pub enum Command {
    Exit,
    Echo,
    Type,
    Invalid,
    External(String),
    Pwd,
    Cd,
    History,
}

/// The model of a resolved command: the external path as characters.
pub enum SpecResolved {
    Exit,
    Echo,
    Type,
    Invalid,
    External(Seq<char>),
    Pwd,
    Cd,
    History,
}

impl View for Command {
    type V = SpecResolved;

    open spec fn view(&self) -> SpecResolved {
        match self {
            Command::Exit => SpecResolved::Exit,
            Command::Echo => SpecResolved::Echo,
            Command::Type => SpecResolved::Type,
            Command::Invalid => SpecResolved::Invalid,
            Command::External(p) => SpecResolved::External(p@),
            Command::Pwd => SpecResolved::Pwd,
            Command::Cd => SpecResolved::Cd,
            Command::History => SpecResolved::History,
        }
    }
}

impl Command {
    /// The printable name of a resolved command: a builtin's own name,
    /// an external command's path, or `invalid`.
    pub fn name_string(&self) -> (r: String)
        ensures
            r@ == match self@ {
                SpecResolved::Exit => "exit"@,
                SpecResolved::Echo => "echo"@,
                SpecResolved::Type => "type"@,
                SpecResolved::Invalid => "invalid"@,
                SpecResolved::External(p) => p,
                SpecResolved::Pwd => "pwd"@,
                SpecResolved::Cd => "cd"@,
                SpecResolved::History => "history"@,
            },
    {
        match self {
            Command::Exit => String::from_str("exit"),
            Command::Echo => String::from_str("echo"),
            Command::Type => String::from_str("type"),
            Command::Invalid => String::from_str("invalid"),
            Command::External(p) => p.clone(),
            Command::Pwd => String::from_str("pwd"),
            Command::Cd => String::from_str("cd"),
            Command::History => String::from_str("history"),
        }
    }
}

/// The failure of a PATH search: no directory held an executable of
/// the wanted name.
#[derive(Debug, Clone, Copy, PartialEq, Eq, Structural)]
pub struct PathError;

/// The builtin, if any, that a name denotes. The fixed builtin set
/// takes precedence over any external lookup.
pub open spec fn spec_builtin(name: Seq<char>) -> Option<SpecResolved> {
    if name == "exit"@ {
        Some(SpecResolved::Exit)
    } else if name == "echo"@ {
        Some(SpecResolved::Echo)
    } else if name == "type"@ {
        Some(SpecResolved::Type)
    } else if name == "pwd"@ {
        Some(SpecResolved::Pwd)
    } else if name == "cd"@ {
        Some(SpecResolved::Cd)
    } else if name == "history"@ {
        Some(SpecResolved::History)
    } else {
        None
    }
}

/// Looks a name up in the fixed builtin set.
pub fn builtin_of(name: &str) -> (r: Option<Command>)
    ensures
        match r {
            Some(c) => spec_builtin(name@) == Some(c@),
            None => spec_builtin(name@) is None,
        },
{
    if str_eq(name, "exit") {
        Some(Command::Exit)
    } else if str_eq(name, "echo") {
        Some(Command::Echo)
    } else if str_eq(name, "type") {
        Some(Command::Type)
    } else if str_eq(name, "pwd") {
        Some(Command::Pwd)
    } else if str_eq(name, "cd") {
        Some(Command::Cd)
    } else if str_eq(name, "history") {
        Some(Command::History)
    } else {
        None
    }
}

/// Splitting text on `:` from position `pos`, with the piece read so
/// far in `cur` and the finished pieces in `out`: the semantics of the
/// PATH separator. Splitting always yields one more piece than there
/// are separators; empty pieces are kept.
pub open spec fn spec_split_at(
    s: Seq<char>,
    pos: int,
    cur: Seq<char>,
    out: Seq<Seq<char>>,
) -> Seq<Seq<char>>
    decreases s.len() - pos,
{
    if pos < 0 || pos >= s.len() {
        out.push(cur)
    } else if s[pos] == ':' {
        spec_split_at(s, pos + 1, Seq::empty(), out.push(cur))
    } else {
        spec_split_at(s, pos + 1, cur.push(s[pos]), out)
    }
}

/// The pieces of a PATH-style string, split on `:`.
pub open spec fn spec_split_colon(s: Seq<char>) -> Seq<Seq<char>> {
    spec_split_at(s, 0, Seq::empty(), Seq::empty())
}

/// Splits a PATH-style variable value on `:` into directory names, in
/// listed order.
pub fn split_colon(s: &str) -> (r: Vec<String>)
    ensures
        strs_view(r@) == spec_split_colon(s@),
{
    let n = s.unicode_len();
    let mut cur: Vec<char> = Vec::new();
    let mut out: Vec<String> = Vec::new();
    let mut i: usize = 0;
    proof {
        assert(strs_view(out@) =~= Seq::<Seq<char>>::empty());
    }
    while i < n
        invariant
            n == s@.len(),
            i <= n,
            spec_split_colon(s@) == spec_split_at(s@, i as int, cur@, strs_view(out@)),
        decreases n - i,
    {
        let c = s.get_char(i);
        if c == ':' {
            let ghost old_out = out@;
            let ghost piece = cur@;
            out.push(crate::strutil::chars_to_string(&cur));
            cur = Vec::new();
            proof {
                assert(strs_view(out@) =~= strs_view(old_out).push(piece));
            }
        } else {
            cur.push(c);
        }
        i += 1;
    }
    let ghost old_out = out@;
    let ghost last = cur@;
    out.push(crate::strutil::chars_to_string(&cur));
    proof {
        assert(strs_view(out@) =~= strs_view(old_out).push(last));
    }
    out
}

/// A directory name and a file name joined with `/`.
pub open spec fn spec_join_path(dir: Seq<char>, name: Seq<char>) -> Seq<char> {
    dir + seq!['/'] + name
}

/// Joins a directory and a file name with `/`.
pub fn join_path(dir: &str, name: &str) -> (r: String)
    ensures
        r@ == spec_join_path(dir@, name@),
{
    let mut s = dir.to_owned();
    s.append("/");
    s.append(name);
    proof {
        reveal_strlit("/");
        assert(s@ =~= spec_join_path(dir@, name@));
    }
    s
}

/// The result of the ordered PATH search: the joined path of the first
/// directory (in listed order) whose candidate is an executable file,
/// or nothing when no directory has one. `ok[i]` states whether the
/// candidate in `dirs[i]` is an executable regular file.
pub open spec fn spec_check_path(
    name: Seq<char>,
    dirs: Seq<Seq<char>>,
    ok: Seq<bool>,
) -> Option<Seq<char>>
    decreases dirs.len(),
{
    if dirs.len() == 0 {
        None
    } else if ok[0] {
        Some(spec_join_path(dirs[0], name))
    } else {
        spec_check_path(name, dirs.drop_first(), ok.drop_first())
    }
}

/// PATH order: when position `i` is the earliest executable hit, the
/// search returns the candidate joined in directory `i` — same-named
/// executables in later directories lose.
pub proof fn lemma_check_path_first_match(
    name: Seq<char>,
    dirs: Seq<Seq<char>>,
    ok: Seq<bool>,
    i: int,
)
    requires
        dirs.len() == ok.len(),
        0 <= i < ok.len(),
        ok[i],
        forall|j: int| 0 <= j < i ==> !ok[j],
    ensures
        spec_check_path(name, dirs, ok) == Some(spec_join_path(dirs[i], name)),
    decreases i,
{
    if i > 0 {
        lemma_check_path_first_match(name, dirs.drop_first(), ok.drop_first(), i - 1);
    }
}

/// The search fails exactly when no directory has an executable hit.
pub proof fn lemma_check_path_none(name: Seq<char>, dirs: Seq<Seq<char>>, ok: Seq<bool>)
    requires
        dirs.len() == ok.len(),
    ensures
        spec_check_path(name, dirs, ok) is None <==> (forall|i: int|
            0 <= i < ok.len() ==> !ok[i]),
    decreases dirs.len(),
{
    if dirs.len() == 0 {
    } else if ok[0] {
        assert(0 <= 0 < ok.len() && ok[0]);
    } else {
        lemma_check_path_none(name, dirs.drop_first(), ok.drop_first());
        let okd = ok.drop_first();
        if spec_check_path(name, dirs, ok) is None {
            assert forall|i: int| 0 <= i < ok.len() implies !ok[i] by {
                if i > 0 {
                    assert(okd[i - 1] == ok[i]);
                }
            }
        } else {
            let j = choose|j: int| 0 <= j < okd.len() && okd[j];
            assert(ok[j + 1]);
        }
    }
}

/// Searches the PATH directories in listed order for an executable of
/// the given name. `exec_ok[i]` says whether `dirs[i]` holds an
/// executable regular file of that name (the caller probes the file
/// system); the earliest hit wins.
pub fn check_path(name: &str, dirs: &Vec<String>, exec_ok: &Vec<bool>) -> (r: Result<
    String,
    PathError,
>)
    requires
        dirs@.len() == exec_ok@.len(),
    ensures
        match r {
            Ok(p) => spec_check_path(name@, strs_view(dirs@), exec_ok@) == Some(p@),
            Err(_) => spec_check_path(name@, strs_view(dirs@), exec_ok@) is None,
        },
{
    let n = dirs.len();
    let mut i: usize = 0;
    proof {
        assert(strs_view(dirs@).subrange(0, n as int) =~= strs_view(dirs@));
        assert(exec_ok@.subrange(0, n as int) =~= exec_ok@);
    }
    while i < n
        invariant
            n == dirs@.len(),
            dirs@.len() == exec_ok@.len(),
            i <= n,
            spec_check_path(name@, strs_view(dirs@), exec_ok@) == spec_check_path(
                name@,
                strs_view(dirs@).subrange(i as int, n as int),
                exec_ok@.subrange(i as int, n as int),
            ),
        decreases n - i,
    {
        let ghost rem_dirs = strs_view(dirs@).subrange(i as int, n as int);
        let ghost rem_ok = exec_ok@.subrange(i as int, n as int);
        proof {
            assert(rem_ok[0] == exec_ok@[i as int]);
            assert(rem_dirs[0] == strs_view(dirs@)[i as int]);
        }
        if exec_ok[i] {
            let p = join_path(dirs[i].as_str(), name);
            return Ok(p);
        }
        proof {
            assert(rem_dirs.drop_first() =~= strs_view(dirs@).subrange(i + 1, n as int));
            assert(rem_ok.drop_first() =~= exec_ok@.subrange(i + 1, n as int));
        }
        i += 1;
    }
    proof {
        assert(strs_view(dirs@).subrange(n as int, n as int) =~= Seq::<Seq<char>>::empty());
        assert(exec_ok@.subrange(n as int, n as int) =~= Seq::<bool>::empty());
    }
    Err(PathError)
}

/// What a command name resolves to, given the PATH directories and the
/// probe results: the builtin set first, then the ordered PATH search,
/// else nothing.
pub open spec fn spec_resolve(name: Seq<char>, dirs: Seq<Seq<char>>, ok: Seq<bool>) -> SpecResolved {
    match spec_builtin(name) {
        Some(b) => b,
        None => match spec_check_path(name, dirs, ok) {
            Some(p) => SpecResolved::External(p),
            None => SpecResolved::Invalid,
        },
    }
}

/// Resolves a command name: exact builtin match first, then the PATH
/// search in listed order, else `Invalid`. Recomputed per invocation;
/// nothing is cached.
pub fn resolve(name: &str, dirs: &Vec<String>, exec_ok: &Vec<bool>) -> (r: Command)
    requires
        dirs@.len() == exec_ok@.len(),
    ensures
        r@ == spec_resolve(name@, strs_view(dirs@), exec_ok@),
{
    match builtin_of(name) {
        Some(c) => c,
        None => match check_path(name, dirs, exec_ok) {
            Ok(p) => Command::External(p),
            Err(_) => Command::Invalid,
        },
    }
}

/// The names of the listed executables, in listing order, out of
/// (name, path) pairs.
pub fn get_path_exe_strings(exe: &Vec<(String, String)>) -> (r: Vec<String>)
    ensures
        r@.len() == exe@.len(),
        forall|i: int| 0 <= i < r@.len() ==> r@[i]@ == exe@[i].0@,
{
    let mut r: Vec<String> = Vec::new();
    let mut i: usize = 0;
    while i < exe.len()
        invariant
            i <= exe@.len(),
            r@.len() == i,
            forall|j: int| 0 <= j < i ==> r@[j]@ == exe@[j].0@,
        decreases exe@.len() - i,
    {
        r.push(exe[i].0.clone());
        i += 1;
    }
    r
}

} // verus!
