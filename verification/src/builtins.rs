//! The pure halves of the builtin commands: what each one prints or
//! decides, given its arguments as plain values. The surrounding file,
//! environment and process work stays with the caller.
use vstd::prelude::*;
use vstd::string::StrSliceExecFns;
use vstd::string::StringExecFns;

use crate::resolve::Command;
use crate::strutil::{
    dec_string, parse_i32, parse_usize, spec_dec, spec_parse_i32, spec_parse_usize, str_eq,
    strs_view,
};

verus! {

/// Words joined by single spaces, in order.
pub open spec fn spec_join_words(ws: Seq<Seq<char>>) -> Seq<char>
    decreases ws.len(),
{
    if ws.len() == 0 {
        Seq::empty()
    } else if ws.len() == 1 {
        ws[0]
    } else {
        spec_join_words(ws.drop_last()) + seq![' '] + ws.last()
    }
}

/// The line `echo` prints (without the trailing newline): its arguments
/// joined by single spaces.
pub fn echo_cmd(args: &Vec<String>) -> (r: String)
    ensures
        r@ == spec_join_words(strs_view(args@)),
{
    let mut r = String::new();
    let mut i: usize = 0;
    proof {
        assert(strs_view(args@).subrange(0, 0) =~= Seq::<Seq<char>>::empty());
    }
    while i < args.len()
        invariant
            i <= args@.len(),
            r@ == spec_join_words(strs_view(args@).subrange(0, i as int)),
        decreases args@.len() - i,
    {
        if i > 0 {
            r.append(" ");
        }
        r.append(args[i].as_str());
        i += 1;
        proof {
            reveal_strlit(" ");
            let ws = strs_view(args@);
            assert(ws.subrange(0, i as int).drop_last() =~= ws.subrange(0, i - 1));
            assert(ws.subrange(0, i as int).last() == args@[i - 1]@);
            if i > 1 {
                assert(" "@ =~= seq![' ']);
                assert(r@ =~= spec_join_words(ws.subrange(0, i - 1)) + seq![' '] + args@[i - 1]@);
            } else {
                assert(r@ =~= args@[0]@);
            }
        }
    }
    proof {
        assert(strs_view(args@).subrange(0, args@.len() as int) =~= strs_view(args@));
    }
    r
}

/// The diagnostic for a name that resolves to nothing.
pub fn invalid_cmd(name: &str) -> (r: String)
    ensures
        r@ == name@ + ": command not found"@,
{
    let mut r = name.to_owned();
    r.append(": command not found");
    r
}

/// What `type` reports for its operand, given what the operand resolved
/// to: `Ok` lines go to the output stream, `Err` lines to the error
/// stream. Without an operand it is a usage error, whatever `resolved`
/// holds.
pub fn type_cmd(args: &Vec<String>, resolved: &Command) -> (r: Result<String, String>)
    ensures
        args@.len() == 0 ==> (r matches Err(e) && e@ == "type: missing operand"@),
        args@.len() > 0 ==> match resolved@ {
            crate::resolve::SpecResolved::External(p) => r matches Ok(m) && m@ == args@[0]@
                + " is "@ + p,
            crate::resolve::SpecResolved::Invalid => r matches Err(e) && e@ == args@[0]@
                + ": not found"@,
            _ => r matches Ok(m) && m@ == args@[0]@ + " is a shell builtin"@,
        },
{
    if args.len() == 0 {
        return Err(String::from_str("type: missing operand"));
    }
    let name = args[0].as_str();
    match resolved {
        Command::External(p) => {
            let mut m = name.to_owned();
            m.append(" is ");
            m.append(p.as_str());
            Ok(m)
        },
        Command::Invalid => {
            let mut m = name.to_owned();
            m.append(": not found");
            Err(m)
        },
        _ => {
            let mut m = name.to_owned();
            m.append(" is a shell builtin");
            Ok(m)
        },
    }
}

/// The exit code `exit` terminates with: its numeric operand, or 0 when
/// the operand is missing or unparseable.
pub fn exit_cmd(args: &Vec<String>) -> (code: i32)
    ensures
        args@.len() == 0 ==> code == 0,
        args@.len() > 0 ==> code as int == (match spec_parse_i32(args@[0]@) {
            Some(v) => v,
            None => 0,
        }),
{
    if args.len() == 0 {
        return 0;
    }
    match parse_i32(args[0].as_str()) {
        Some(v) => v,
        None => 0,
    }
}

/// The directory `cd` moves to: its operand, with a leading `~`
/// replaced by the home directory; without an operand, the home
/// directory itself.
pub open spec fn spec_cd_target(args: Seq<Seq<char>>, home: Seq<char>) -> Seq<char> {
    if args.len() == 0 {
        home
    } else if args[0].len() > 0 && args[0][0] == '~' {
        home + args[0].drop_first()
    } else {
        args[0]
    }
}

/// Computes the directory `cd` moves to (see [`spec_cd_target`]). The
/// caller performs the change of directory itself.
pub fn cd_target(args: &Vec<String>, home: &str) -> (r: String)
    ensures
        r@ == spec_cd_target(strs_view(args@), home@),
{
    if args.len() == 0 {
        return home.to_owned();
    }
    let arg = args[0].as_str();
    let n = arg.unicode_len();
    if n > 0 && arg.get_char(0) == '~' {
        let mut r = home.to_owned();
        r.append(arg.substring_char(1, n));
        proof {
            assert(arg@.subrange(1, n as int) =~= args@[0]@.drop_first());
        }
        r
    } else {
        args[0].clone()
    }
}

/// The diagnostic `cd` reports when the target directory cannot be
/// entered; the working directory is then left unchanged.
pub fn cd_error_message(dir: &str) -> (r: String)
    ensures
        r@ == "cd: "@ + dir@ + ": No such file or directory"@,
{
    let mut r = String::from_str("cd: ");
    r.append(dir);
    r.append(": No such file or directory");
    r
}

/// What a `history` invocation asks for: loading entries from a file,
/// overwriting a file with the entries, showing the last so-many
/// entries, or nothing (a file switch without a file name).
#[derive(Debug, PartialEq, Eq)]
pub enum HistoryAction {
    Load(String),
    Save(String),
    Show(usize),
    Nothing,
}

/// The model of a history action: paths as their characters.
pub enum SpecHistoryAction {
    Load(Seq<char>),
    Save(Seq<char>),
    Show(int),
    Nothing,
}

impl View for HistoryAction {
    type V = SpecHistoryAction;

    open spec fn view(&self) -> SpecHistoryAction {
        match self {
            HistoryAction::Load(p) => SpecHistoryAction::Load(p@),
            HistoryAction::Save(p) => SpecHistoryAction::Save(p@),
            HistoryAction::Show(k) => SpecHistoryAction::Show(*k as int),
            HistoryAction::Nothing => SpecHistoryAction::Nothing,
        }
    }
}

/// The action a `history` argument list asks for: `-r file` loads,
/// `-w file` saves, a number shows that many newest entries, no
/// argument (or an unparseable count) shows all `len` entries, and a
/// file switch without a file name does nothing.
pub open spec fn spec_history_action(args: Seq<Seq<char>>, len: int) -> SpecHistoryAction {
    if args.len() == 0 {
        SpecHistoryAction::Show(len)
    } else if args[0] == "-r"@ {
        if args.len() >= 2 {
            SpecHistoryAction::Load(args[1])
        } else {
            SpecHistoryAction::Nothing
        }
    } else if args[0] == "-w"@ {
        if args.len() >= 2 {
            SpecHistoryAction::Save(args[1])
        } else {
            SpecHistoryAction::Nothing
        }
    } else {
        SpecHistoryAction::Show(
            match spec_parse_usize(args[0]) {
                Some(k) => k,
                None => len,
            },
        )
    }
}

/// Decides what a `history` invocation asks for (see
/// [`spec_history_action`]); `history_len` is the number of in-memory
/// entries.
pub fn history_action(args: &Vec<String>, history_len: usize) -> (r: HistoryAction)
    ensures
        r@ == spec_history_action(strs_view(args@), history_len as int),
{
    if args.len() == 0 {
        return HistoryAction::Show(history_len);
    }
    let first = args[0].as_str();
    if str_eq(first, "-r") {
        if args.len() >= 2 {
            HistoryAction::Load(args[1].clone())
        } else {
            HistoryAction::Nothing
        }
    } else if str_eq(first, "-w") {
        if args.len() >= 2 {
            HistoryAction::Save(args[1].clone())
        } else {
            HistoryAction::Nothing
        }
    } else {
        match parse_usize(first) {
            Some(k) => HistoryAction::Show(k),
            None => HistoryAction::Show(history_len),
        }
    }
}

/// One printed history line: the 1-based entry number, two spaces, the
/// entry.
pub open spec fn spec_history_line(number: nat, entry: Seq<char>) -> Seq<char> {
    spec_dec(number) + seq![' ', ' '] + entry
}

/// The lines `history` prints for a count: the newest `count` entries
/// (all of them when `count` is larger), in chronological order, each
/// numbered by its 1-based position in the whole history.
pub open spec fn spec_history_lines(entries: Seq<Seq<char>>, count: int) -> Seq<Seq<char>> {
    let first = if count < entries.len() { entries.len() - count } else { 0 };
    Seq::new(
        (entries.len() - first) as nat,
        |j: int| spec_history_line((first + j + 1) as nat, entries[first + j]),
    )
}

/// Renders the history lines a count asks for (see
/// [`spec_history_lines`]).
pub fn history_lines(history: &Vec<String>, count: usize) -> (r: Vec<String>)
    ensures
        strs_view(r@) == spec_history_lines(strs_view(history@), count as int),
{
    let len = history.len();
    let first = if count < len {
        len - count
    } else {
        0
    };
    let mut r: Vec<String> = Vec::new();
    let mut i: usize = first;
    while i < len
        invariant
            first <= i <= len,
            len == history@.len(),
            first == (if count < len { len - count as int } else { 0int }),
            r@.len() == i - first,
            forall|j: int| 0 <= j < r@.len() ==> r@[j]@ == spec_history_line(
                (first + j + 1) as nat,
                history@[first + j]@,
            ),
        decreases len - i,
    {
        let mut line = dec_string(i + 1);
        line.append("  ");
        line.append(history[i].as_str());
        proof {
            reveal_strlit("  ");
            assert("  "@ =~= seq![' ', ' ']);
            assert(line@ =~= spec_history_line((i + 1) as nat, history@[i as int]@));
        }
        r.push(line);
        i += 1;
    }
    proof {
        assert(strs_view(r@) =~= spec_history_lines(strs_view(history@), count as int));
    }
    r
}

} // verus!
