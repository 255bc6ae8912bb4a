//! What the builtins print and where they go, decided from plain values; the
//! binary does the printing and the changing of directories.
use vstd::prelude::*;

use crate::eval::command::{builtin_names, CommandTask};
use crate::text::{join_words, joined, push_char};

verus! {

/// Which of the two output streams a text goes to.
#[derive(Debug, Clone, Copy, PartialEq, Eq, Structural)]
pub enum OutputStream {
    Stdout,
    Stderr,
}

/// A text to print, the stream it goes to, and whether the builtin succeeded.
#[derive(Debug)]
pub struct Report {
    pub stream: OutputStream,
    pub text: String,
    pub success: bool,
}

/// What `echo` prints: its arguments separated by single blanks, and a newline
/// after the last one; nothing at all when there are no arguments.
pub open spec fn echo_text(args: Seq<Seq<char>>) -> Seq<char> {
    if args.len() == 0 {
        seq![]
    } else {
        joined(args, seq![' ']) + seq!['\n']
    }
}

/// The text that `echo` prints for its arguments.
pub fn echo_output(args: &[String]) -> (r: String)
    ensures
        r@ == echo_text(args.deep_view()),
{
    let mut out = join_words(args, " ");
    proof {
        reveal_strlit(" ");
    }
    assert(" "@ == seq![' ']);
    if args.len() > 0 {
        push_char(&mut out, '\n');
    } else {
        assert(args.deep_view() =~= seq![]);
    }
    out
}

/// What `type` reports of a builtin: `<arg> is a shell builtin`, on standard
/// output, successfully; `None` where `arg` names no builtin, which is then
/// looked for among the programs in `PATH`.
pub fn type_builtin_report(arg: &str) -> (r: Option<Report>)
    ensures
        builtin_names().contains(arg@) ==> (r matches Some(rep) && rep.stream == OutputStream::Stdout
            && rep.text@ == arg@ + " is a shell builtin\n"@ && rep.success),
        !builtin_names().contains(arg@) ==> r is None,
{
    let words = vec![String::from_str(arg)];
    if CommandTask::is_builtin(words.as_slice()) {
        let mut text = String::from_str(arg);
        text.append(" is a shell builtin\n");
        Some(Report { stream: OutputStream::Stdout, text, success: true })
    } else {
        None
    }
}

/// What `type` reports of a word that names no builtin: `<arg> is <path>` on
/// standard output, successfully, where the program was found at `location`;
/// `<arg> not found` on standard error, as a failure, where it was not.
pub fn type_path_report(arg: &str, location: Option<&str>) -> (r: Report)
    ensures
        match location {
            Some(path) => r.stream == OutputStream::Stdout && r.text@ == arg@ + " is "@ + path@
                + "\n"@ && r.success,
            None => r.stream == OutputStream::Stderr && r.text@ == arg@ + " not found\n"@
                && !r.success,
        },
{
    let mut text = String::from_str(arg);
    match location {
        Some(path) => {
            text.append(" is ");
            text.append(path);
            text.append("\n");
            Report { stream: OutputStream::Stdout, text, success: true }
        },
        None => {
            text.append(" not found\n");
            Report { stream: OutputStream::Stderr, text, success: false }
        },
    }
}

/// Whether a path is the same path as `~`, component by component: `~`,
/// possibly followed by separators and `.` components (`~/`, `~//`, `~/.`).
pub open spec fn names_home(p: Seq<char>) -> bool {
    &&& p.len() >= 1
    &&& p[0] == '~'
    &&& p.len() >= 2 ==> p[1] == '/'
    &&& forall|i: int|
        2 <= i < p.len() ==> (#[trigger] p[i] == '/' || (p[i] == '.' && p[i - 1] == '/' && (i + 1
            == p.len() || p[i + 1] == '/')))
}

/// The directory that `cd` changes to: the home directory where it is given no
/// argument or `~`, else its argument.
pub open spec fn cd_destination(arg: Option<Seq<char>>, home: Seq<char>) -> Seq<char> {
    match arg {
        Some(a) => if names_home(a) {
            home
        } else {
            a
        },
        None => home,
    }
}

/// `cd` goes home without an argument or with `~`, and an argument that does
/// not begin with `~` is the destination itself.
pub proof fn law_cd_goes_where_it_is_told(a: Seq<char>, home: Seq<char>)
    ensures
        (a.len() == 0 || a[0] != '~') ==> cd_destination(Some(a), home) == a,
        cd_destination(None, home) == home,
        cd_destination(Some(seq!['~']), home) == home,
{
}

/// Whether a path is the same path as `~` (see `names_home`).
pub fn is_home_path(p: &str) -> (r: bool)
    ensures
        r == names_home(p@),
{
    let n = p.unicode_len();
    if n == 0 || p.get_char(0) != '~' {
        return false;
    }
    if n >= 2 && p.get_char(1) != '/' {
        return false;
    }
    let mut i: usize = 2;
    while i < n
        invariant
            n == p@.len(),
            2 <= i,
            i <= n || n < 2,
            forall|j: int|
                2 <= j < i && j < n ==> (#[trigger] p@[j] == '/' || (p@[j] == '.' && p@[j - 1]
                    == '/' && (j + 1 == n || p@[j + 1] == '/'))),
        decreases n - i,
    {
        let c = p.get_char(i);
        if c == '/' {
        } else if c == '.' && p.get_char(i - 1) == '/' && (i + 1 == n || p.get_char(i + 1) == '/') {
        } else {
            assert(!(p@[i as int] == '/' || (p@[i as int] == '.' && p@[i - 1] == '/' && (i + 1
                == n || p@[i + 1] == '/'))));
            return false;
        }
        i = i + 1;
    }
    true
}

/// The directory that `cd` changes to (see `cd_destination`).
pub fn cd_target(arg: Option<&str>, home: &str) -> (r: String)
    ensures
        r@ == cd_destination(
            match arg {
                Some(a) => Some(a@),
                None => None,
            },
            home@,
        ),
{
    match arg {
        Some(a) => if is_home_path(a) {
            String::from_str(home)
        } else {
            String::from_str(a)
        },
        None => String::from_str(home),
    }
}

} // verus!
