pub mod command;
pub mod instruction;
pub mod parser;
pub mod pipeline;

use vstd::prelude::*;

use crate::error::EvaluatorError;
use crate::eval::command::composite::CommandView;
use crate::eval::command::{
    accepts_task, builtin_names, law_builtin_words_make_builtin_tasks, task_accepts, task_of, Command,
    CommandTask, TaskView,
};
use crate::eval::parser::{shlex_split, split};
use crate::text::{chars_of, is_numeric, joined, numeric_char, push_char, same_text};

verus! {

/// How a raw command line is rewritten before it is split into words, so that
/// redirection operators stand apart: `a>b` becomes `a > b`, `a>>b` becomes
/// `a >> b`, and a digit or `&` right before `>` stays attached to it
/// (`2>f` becomes ` 2> f`). `last` is the last character that was not a digit
/// or `&` (the scan starts with `'_'`).
pub open spec fn normalized(s: Seq<char>, last: char) -> Seq<char>
    decreases s.len(),
{
    if s.len() == 0 {
        seq![]
    } else {
        let ch = s[0];
        if ch == '>' && last != '1' && last != '2' {
            if s.len() == 1 {
                seq![' ', '>', ' ']
            } else if s[1] == '>' {
                seq![' ', '>', '>', ' '] + normalized(s.skip(2), '>')
            } else {
                seq![' ', '>', ' ', s[1]] + normalized(s.skip(2), '>')
            }
        } else if numeric_char(ch) || ch == '&' {
            if s.len() == 1 {
                seq![ch]
            } else if s[1] == '>' {
                if s.len() == 2 {
                    seq![' ', '>', ' ']
                } else if s[2] == '>' {
                    seq![' ', ch, '>', '>', ' '] + normalized(s.skip(3), last)
                } else {
                    seq![' ', ch, '>', ' ', s[2]] + normalized(s.skip(3), last)
                }
            } else {
                seq![ch, s[1]] + normalized(s.skip(2), last)
            }
        } else {
            seq![ch] + normalized(s.skip(1), ch)
        }
    }
}

/// A command line without `>` is left as it is.
pub proof fn law_plain_line_unchanged(s: Seq<char>)
    requires
        !s.contains('>'),
    ensures
        normalized(s, '_') == s,
{
    lemma_normalized_identity(s, '_');
}

proof fn lemma_normalized_identity(s: Seq<char>, last: char)
    requires
        !s.contains('>'),
    ensures
        normalized(s, last) == s,
    decreases s.len(),
{
    if s.len() > 0 {
        assert(s[0] != '>') by {
            assert(s.contains(s[0]) ==> s[0] != '>');
        }
        if s.len() > 1 {
            assert(s[1] != '>') by {
                assert(s.contains(s[1]));
            }
        }
        let ch = s[0];
        if numeric_char(ch) || ch == '&' {
            if s.len() > 1 {
                let t = s.skip(2);
                assert forall|c: char| t.contains(c) implies c != '>' by {
                    let k = choose|k: int| 0 <= k < t.len() && t[k] == c;
                    assert(s[k + 2] == c);
                }
                lemma_normalized_identity(t, last);
                assert(seq![ch, s[1]] + t =~= s);
            }
        } else {
            let t = s.skip(1);
            assert forall|c: char| t.contains(c) implies c != '>' by {
                let k = choose|k: int| 0 <= k < t.len() && t[k] == c;
                assert(s[k + 1] == c);
            }
            lemma_normalized_identity(t, ch);
            assert(seq![ch] + t =~= s);
        }
    }
}

/// The number of times `c` occurs in `s`.
pub open spec fn occurrences(s: Seq<char>, c: char) -> nat
    decreases s.len(),
{
    if s.len() == 0 {
        0
    } else {
        (if s[0] == c {
            1nat
        } else {
            0nat
        }) + occurrences(s.drop_first(), c)
    }
}

/// `s` with its blanks taken out.
pub open spec fn without_blanks(s: Seq<char>) -> Seq<char>
    decreases s.len(),
{
    if s.len() == 0 {
        seq![]
    } else {
        (if s[0] == ' ' {
            seq![]
        } else {
            seq![s[0]]
        }) + without_blanks(s.drop_first())
    }
}

proof fn lemma_measures_concat(a: Seq<char>, b: Seq<char>)
    ensures
        occurrences(a + b, '>') == occurrences(a, '>') + occurrences(b, '>'),
        without_blanks(a + b) == without_blanks(a) + without_blanks(b),
    decreases a.len(),
{
    if a.len() == 0 {
        assert(a + b =~= b);
        assert(without_blanks(a) + without_blanks(b) =~= without_blanks(b));
    } else {
        assert((a + b).drop_first() =~= a.drop_first() + b);
        assert((a + b)[0] == a[0]);
        lemma_measures_concat(a.drop_first(), b);
        let head: Seq<char> = if a[0] == ' ' {
            seq![]
        } else {
            seq![a[0]]
        };
        assert(head + (without_blanks(a.drop_first()) + without_blanks(b)) =~= (head
            + without_blanks(a.drop_first())) + without_blanks(b));
    }
}

proof fn lemma_measures_single(x: char)
    ensures
        occurrences(seq![x], '>') == (if x == '>' {
            1nat
        } else {
            0nat
        }),
        without_blanks(seq![x]) == (if x == ' ' {
            seq![]
        } else {
            seq![x]
        }),
{
    assert(seq![x].drop_first() =~= Seq::<char>::empty());
    assert(seq![x][0] == x);
    assert(occurrences(Seq::<char>::empty(), '>') == 0);
    assert(without_blanks(Seq::<char>::empty()) == Seq::<char>::empty());
    assert(occurrences(seq![x], '>') == (if x == '>' {
        1nat
    } else {
        0nat
    }) + occurrences(Seq::<char>::empty(), '>'));
    let head: Seq<char> = if x == ' ' {
        seq![]
    } else {
        seq![x]
    };
    assert(head + Seq::<char>::empty() =~= head);
}

/// A blank between `a` and `b` changes neither the number of `>` nor the
/// characters other than blanks.
proof fn lemma_blank_inserted(a: Seq<char>, b: Seq<char>)
    ensures
        occurrences(a + seq![' '] + b, '>') == occurrences(a + b, '>'),
        without_blanks(a + seq![' '] + b) == without_blanks(a + b),
{
    lemma_measures_concat(a, seq![' ']);
    lemma_measures_concat(a + seq![' '], b);
    lemma_measures_concat(a, b);
    lemma_measures_single(' ');
    assert(without_blanks(a) + Seq::<char>::empty() =~= without_blanks(a));
}

proof fn lemma_split_at(s: Seq<char>, k: int)
    requires
        0 <= k <= s.len(),
    ensures
        occurrences(s, '>') == occurrences(s.take(k), '>') + occurrences(s.skip(k), '>'),
        without_blanks(s) == without_blanks(s.take(k)) + without_blanks(s.skip(k)),
{
    assert(s =~= s.take(k) + s.skip(k));
    lemma_measures_concat(s.take(k), s.skip(k));
}

/// The rewriting keeps every `>` of the line, and makes none: the rewritten
/// line holds as many `>` as the line (so a lone `>` never becomes `>>`).
pub proof fn law_rewriting_keeps_each_redirection_sign(s: Seq<char>, last: char)
    ensures
        occurrences(normalized(s, last), '>') == occurrences(s, '>'),
    decreases s.len(),
{
    lemma_rewriting_measures(s, last);
}

/// The rewriting only puts blanks into a line that does not end in `>`: with
/// the blanks taken out, the rewritten line is the line.
pub proof fn law_rewriting_only_adds_blanks(s: Seq<char>, last: char)
    requires
        s.len() == 0 || s.last() != '>',
    ensures
        without_blanks(normalized(s, last)) == without_blanks(s),
{
    lemma_rewriting_measures(s, last);
}

proof fn lemma_rewriting_measures(s: Seq<char>, last: char)
    ensures
        occurrences(normalized(s, last), '>') == occurrences(s, '>'),
        s.len() == 0 || s.last() != '>' ==> without_blanks(normalized(s, last)) == without_blanks(
            s,
        ),
    decreases s.len(),
{
    if s.len() == 0 {
        return ;
    }
    let ch = s[0];
    let e = seq![' '];
    if ch == '>' && last != '1' && last != '2' {
        if s.len() == 1 {
            assert(s =~= seq!['>']);
            lemma_blank_inserted(seq![], seq!['>', ' ']);
            assert(e + seq!['>', ' '] =~= seq![' ', '>', ' ']);
            assert(Seq::<char>::empty() + seq!['>', ' '] =~= seq!['>'] + seq![' '] + Seq::<
                char,
            >::empty());
            lemma_blank_inserted(seq!['>'], seq![]);
            assert(seq!['>'] + Seq::<char>::empty() =~= s);
            assert(Seq::<char>::empty() + e + seq!['>', ' '] =~= seq![' ', '>', ' ']);
        } else {
            let rest = s.skip(2);
            lemma_rewriting_measures(rest, '>');
            lemma_split_at(s, 2);
            assert(s.take(2) =~= seq!['>', s[1]]);
            let x = s[1];
            let emitted: Seq<char> = if x == '>' {
                seq![' ', '>', '>', ' ']
            } else {
                seq![' ', '>', ' ', x]
            };
            assert(normalized(s, last) == emitted + normalized(rest, '>'));
            lemma_measures_concat(emitted, normalized(rest, '>'));
            if x == '>' {
                assert(emitted =~= Seq::<char>::empty() + e + seq!['>', '>', ' ']);
                lemma_blank_inserted(seq![], seq!['>', '>', ' ']);
                assert(Seq::<char>::empty() + seq!['>', '>', ' '] =~= seq!['>', '>'] + e
                    + Seq::<char>::empty());
                lemma_blank_inserted(seq!['>', '>'], seq![]);
                assert(seq!['>', '>'] + Seq::<char>::empty() =~= s.take(2));
            } else {
                assert(emitted =~= Seq::<char>::empty() + e + seq!['>', ' ', x]);
                lemma_blank_inserted(seq![], seq!['>', ' ', x]);
                assert(Seq::<char>::empty() + seq!['>', ' ', x] =~= seq!['>'] + e + seq![x]);
                lemma_blank_inserted(seq!['>'], seq![x]);
                assert(seq!['>'] + seq![x] =~= s.take(2));
            }
            if rest.len() > 0 {
                assert(rest.last() == s.last());
            }
        }
    } else if numeric_char(ch) || ch == '&' {
        assert(ch != '>');
        if s.len() == 1 {
            assert(s =~= seq![ch]);
        } else if s[1] == '>' {
            if s.len() == 2 {
                assert(s =~= seq![ch] + seq!['>']);
                lemma_measures_concat(seq![ch], seq!['>']);
                lemma_measures_single(ch);
                lemma_blank_inserted(seq![], seq!['>', ' ']);
                assert(Seq::<char>::empty() + e + seq!['>', ' '] =~= seq![' ', '>', ' ']);
                assert(Seq::<char>::empty() + seq!['>', ' '] =~= seq!['>'] + e + Seq::<
                    char,
                >::empty());
                lemma_blank_inserted(seq!['>'], seq![]);
                assert(seq!['>'] + Seq::<char>::empty() =~= seq!['>']);
            } else {
                let rest = s.skip(3);
                lemma_rewriting_measures(rest, last);
                lemma_split_at(s, 3);
                let y = s[2];
                assert(s.take(3) =~= seq![ch, '>', y]);
                let emitted: Seq<char> = if y == '>' {
                    seq![' ', ch, '>', '>', ' ']
                } else {
                    seq![' ', ch, '>', ' ', y]
                };
                assert(normalized(s, last) == emitted + normalized(rest, last));
                lemma_measures_concat(emitted, normalized(rest, last));
                if y == '>' {
                    assert(emitted =~= Seq::<char>::empty() + e + seq![ch, '>', '>', ' ']);
                    lemma_blank_inserted(seq![], seq![ch, '>', '>', ' ']);
                    assert(Seq::<char>::empty() + seq![ch, '>', '>', ' '] =~= seq![ch, '>', '>']
                        + e + Seq::<char>::empty());
                    lemma_blank_inserted(seq![ch, '>', '>'], seq![]);
                    assert(seq![ch, '>', '>'] + Seq::<char>::empty() =~= s.take(3));
                } else {
                    assert(emitted =~= Seq::<char>::empty() + e + seq![ch, '>', ' ', y]);
                    lemma_blank_inserted(seq![], seq![ch, '>', ' ', y]);
                    assert(Seq::<char>::empty() + seq![ch, '>', ' ', y] =~= seq![ch, '>'] + e
                        + seq![y]);
                    lemma_blank_inserted(seq![ch, '>'], seq![y]);
                    assert(seq![ch, '>'] + seq![y] =~= s.take(3));
                }
                if rest.len() > 0 {
                    assert(rest.last() == s.last());
                }
            }
        } else {
            let rest = s.skip(2);
            lemma_rewriting_measures(rest, last);
            lemma_split_at(s, 2);
            assert(s.take(2) =~= seq![ch, s[1]]);
            assert(normalized(s, last) == seq![ch, s[1]] + normalized(rest, last));
            lemma_measures_concat(seq![ch, s[1]], normalized(rest, last));
            if rest.len() > 0 {
                assert(rest.last() == s.last());
            }
        }
    } else {
        let rest = s.skip(1);
        lemma_rewriting_measures(rest, ch);
        lemma_split_at(s, 1);
        assert(s.take(1) =~= seq![ch]);
        assert(normalized(s, last) == seq![ch] + normalized(rest, ch));
        lemma_measures_concat(seq![ch], normalized(rest, ch));
        if rest.len() > 0 {
            assert(rest.last() == s.last());
        }
    }
}

/// Rewrites a raw command line so that its redirection operators stand apart as
/// words (see `normalized`).
pub fn normalize_redirections(command_raw: &str) -> (r: String)
    ensures
        r@ == normalized(command_raw@, '_'),
{
    let v = chars_of(command_raw);
    let n = v.len();
    let mut out = String::new();
    let mut last: char = '_';
    let mut i: usize = 0;
    assert(v@.skip(0) =~= v@);
    assert(out@ + normalized(v@, '_') =~= normalized(v@, '_'));
    while i < n
        invariant
            n == v@.len(),
            v@ == command_raw@,
            i <= n,
            out@ + normalized(v@.skip(i as int), last) == normalized(v@, '_'),
        decreases n - i,
    {
        let ghost rest = v@.skip(i as int);
        let ghost before = out@;
        let ch = v[i];
        assert(rest[0] == ch);
        if ch == '>' && last != '1' && last != '2' {
            if i + 1 < n {
                let nch = v[i + 1];
                assert(rest[1] == nch);
                assert(rest.skip(2) =~= v@.skip(i + 2));
                push_char(&mut out, ' ');
                push_char(&mut out, '>');
                if nch == '>' {
                    push_char(&mut out, '>');
                    push_char(&mut out, ' ');
                    assert(out@ == before + seq![' ', '>', '>', ' ']);
                } else {
                    push_char(&mut out, ' ');
                    push_char(&mut out, nch);
                    assert(out@ == before + seq![' ', '>', ' ', nch]);
                }
                i = i + 2;
            } else {
                push_char(&mut out, ' ');
                push_char(&mut out, '>');
                push_char(&mut out, ' ');
                assert(out@ == before + seq![' ', '>', ' ']);
                i = i + 1;
                assert(v@.skip(i as int) =~= seq![]);
            }
            last = ch;
        } else if is_numeric(ch) || ch == '&' {
            if i + 1 < n {
                let nch = v[i + 1];
                assert(rest[1] == nch);
                if nch == '>' {
                    if i + 2 < n {
                        let nnch = v[i + 2];
                        assert(rest[2] == nnch);
                        assert(rest.skip(3) =~= v@.skip(i + 3));
                        push_char(&mut out, ' ');
                        push_char(&mut out, ch);
                        push_char(&mut out, '>');
                        if nnch == '>' {
                            push_char(&mut out, '>');
                            push_char(&mut out, ' ');
                            assert(out@ == before + seq![' ', ch, '>', '>', ' ']);
                        } else {
                            push_char(&mut out, ' ');
                            push_char(&mut out, nnch);
                            assert(out@ == before + seq![' ', ch, '>', ' ', nnch]);
                        }
                        i = i + 3;
                    } else {
                        push_char(&mut out, ' ');
                        push_char(&mut out, '>');
                        push_char(&mut out, ' ');
                        assert(out@ == before + seq![' ', '>', ' ']);
                        i = i + 2;
                        assert(v@.skip(i as int) =~= seq![]);
                    }
                } else {
                    assert(rest.skip(2) =~= v@.skip(i + 2));
                    push_char(&mut out, ch);
                    push_char(&mut out, nch);
                    assert(out@ == before + seq![ch, nch]);
                    i = i + 2;
                }
            } else {
                push_char(&mut out, ch);
                assert(out@ == before + seq![ch]);
                i = i + 1;
                assert(v@.skip(i as int) =~= seq![]);
            }
        } else {
            assert(rest.skip(1) =~= v@.skip(i + 1));
            push_char(&mut out, ch);
            assert(out@ == before + seq![ch]);
            i = i + 1;
            last = ch;
        }
    }
    assert(v@.skip(n as int) =~= seq![]);
    assert(out@ + seq![] =~= out@);
    out
}

/// Where the next word of a command line goes.
pub enum ScanMode {
    Command,
    RedirStdout,
    RedirStderr,
}

/// What has been read of a command line's words so far: the words of the
/// command itself, the redirections, and whether an operator that the shell
/// does not support was met.
pub struct Scan {
    pub mode: ScanMode,
    pub argv: Seq<Seq<char>>,
    pub stdout_to: Option<Seq<char>>,
    pub stderr_to: Option<Seq<char>>,
    pub stdout_append: bool,
    pub stderr_append: bool,
    pub unsupported: bool,
}

/// The state before the first word.
pub open spec fn scan_start() -> Scan {
    Scan {
        mode: ScanMode::Command,
        argv: seq![],
        stdout_to: None,
        stderr_to: None,
        stdout_append: false,
        stderr_append: false,
        unsupported: false,
    }
}

/// The redirection words that the shell understands.
pub open spec fn is_redirection(word: Seq<char>) -> bool {
    word == "1>"@ || word == ">"@ || word == "1>>"@ || word == ">>"@ || word == "2>"@ || word
        == "2>>"@
}

/// Operators that the shell does not support: another descriptor's redirection
/// (a number followed by `>`), `&>`, and the command separators `;`, `&&`, `||`.
pub open spec fn is_unsupported_operator(word: Seq<char>) -> bool {
    ||| (word.len() >= 2 && numeric_char(word[0]) && word[1] == '>')
    ||| word == "&>"@
    ||| word == ";"@
    ||| word == "&&"@
    ||| word == "||"@
}

/// Reads one word.
pub open spec fn scan_step(st: Scan, word: Seq<char>) -> Scan {
    match st.mode {
        ScanMode::Command => if word == "1>"@ || word == ">"@ {
            Scan { mode: ScanMode::RedirStdout, ..st }
        } else if word == "1>>"@ || word == ">>"@ {
            Scan { mode: ScanMode::RedirStdout, stdout_append: true, ..st }
        } else if word == "2>"@ {
            Scan { mode: ScanMode::RedirStderr, ..st }
        } else if word == "2>>"@ {
            Scan { mode: ScanMode::RedirStderr, stderr_append: true, ..st }
        } else if is_unsupported_operator(word) {
            Scan { unsupported: true, ..st }
        } else {
            Scan { argv: st.argv.push(word), ..st }
        },
        ScanMode::RedirStdout => Scan { mode: ScanMode::Command, stdout_to: Some(word), ..st },
        ScanMode::RedirStderr => Scan { mode: ScanMode::Command, stderr_to: Some(word), ..st },
    }
}

/// Reads a command line's words from the first to the last.
pub open spec fn scan(words: Seq<Seq<char>>) -> Scan
    decreases words.len(),
{
    if words.len() == 0 {
        scan_start()
    } else {
        scan_step(scan(words.drop_last()), words.last())
    }
}

/// Reads `words` on from the state `st`.
pub open spec fn scan_from(st: Scan, words: Seq<Seq<char>>) -> Scan
    decreases words.len(),
{
    if words.len() == 0 {
        st
    } else {
        scan_step(scan_from(st, words.drop_last()), words.last())
    }
}

proof fn lemma_scan_concat(a: Seq<Seq<char>>, r: Seq<Seq<char>>)
    ensures
        scan(a + r) == scan_from(scan(a), r),
    decreases r.len(),
{
    if r.len() == 0 {
        assert(a + r =~= a);
    } else {
        lemma_scan_concat(a, r.drop_last());
        assert((a + r).drop_last() =~= a + r.drop_last());
        assert((a + r).last() == r.last());
    }
}

proof fn lemma_scan_push(a: Seq<Seq<char>>, x: Seq<char>)
    ensures
        scan(a + seq![x]) == scan_step(scan(a), x),
{
    assert((a + seq![x]).drop_last() =~= a);
    assert((a + seq![x]).last() == x);
}

/// `1>` is `>` and `1>>` is `>>`: where a word can start a redirection,
/// writing the one for the other changes nothing in what is read of the line.
pub proof fn law_numbered_stdout_is_stdout(
    a: Seq<Seq<char>>,
    r: Seq<Seq<char>>,
)
    requires
        scan(a).mode is Command,
    ensures
        scan(a + seq!["1>"@] + r) == scan(a + seq![">"@] + r),
        scan(a + seq!["1>>"@] + r) == scan(a + seq![">>"@] + r),
{
    reveal_strlit(">");
    reveal_strlit("1>");
    reveal_strlit(">>");
    reveal_strlit("1>>");
    reveal_strlit("2>");
    reveal_strlit("2>>");
    assert(">"@.len() == 1 && "1>"@.len() == 2 && ">>"@.len() == 2 && "1>>"@.len() == 3
        && "2>"@.len() == 2 && "2>>"@.len() == 3);
    assert("1>"@[0] == '1' && ">>"@[0] == '>' && "2>"@[0] == '2' && "1>>"@[0] == '1'
        && "2>>"@[0] == '2');
    assert("1>"@ != ">>"@ && "1>"@ != "2>"@ && ">>"@ != "2>"@ && "1>>"@ != "2>>"@);
    lemma_scan_push(a, "1>"@);
    lemma_scan_push(a, ">"@);
    lemma_scan_push(a, "1>>"@);
    lemma_scan_push(a, ">>"@);
    lemma_scan_concat(a + seq!["1>"@], r);
    lemma_scan_concat(a + seq![">"@], r);
    lemma_scan_concat(a + seq!["1>>"@], r);
    lemma_scan_concat(a + seq![">>"@], r);
}

/// A redirection followed by a file sends its stream to that file: `>` and
/// `1>` send standard output there and leave whether it appends as it was;
/// `>>` and `1>>` send it there appending; `2>` and `2>>` do the same for
/// standard error. The command's own words are left as they were.
pub proof fn law_redirection_sends_stream_to_file(a: Seq<Seq<char>>, f: Seq<char>)
    requires
        scan(a).mode is Command,
    ensures
        scan(a + seq![">"@, f]) == (Scan { stdout_to: Some(f), ..scan(a) }),
        scan(a + seq!["1>"@, f]) == (Scan { stdout_to: Some(f), ..scan(a) }),
        scan(a + seq![">>"@, f]) == (Scan { stdout_to: Some(f), stdout_append: true, ..scan(a) }),
        scan(a + seq!["1>>"@, f]) == (Scan { stdout_to: Some(f), stdout_append: true, ..scan(a) }),
        scan(a + seq!["2>"@, f]) == (Scan { stderr_to: Some(f), ..scan(a) }),
        scan(a + seq!["2>>"@, f]) == (Scan { stderr_to: Some(f), stderr_append: true, ..scan(a) }),
{
    reveal_strlit(">");
    reveal_strlit("1>");
    reveal_strlit(">>");
    reveal_strlit("1>>");
    reveal_strlit("2>");
    reveal_strlit("2>>");
    assert(">"@.len() == 1 && "1>"@.len() == 2 && ">>"@.len() == 2 && "1>>"@.len() == 3
        && "2>"@.len() == 2 && "2>>"@.len() == 3);
    assert("1>"@[0] == '1' && ">>"@[0] == '>' && "2>"@[0] == '2' && "1>>"@[0] == '1'
        && "2>>"@[0] == '2');
    assert("1>"@ != ">>"@ && "1>"@ != "2>"@ && ">>"@ != "2>"@ && "1>>"@ != "2>>"@);
    lemma_scan_pair(a, ">"@, f);
    lemma_scan_pair(a, "1>"@, f);
    lemma_scan_pair(a, ">>"@, f);
    lemma_scan_pair(a, "1>>"@, f);
    lemma_scan_pair(a, "2>"@, f);
    lemma_scan_pair(a, "2>>"@, f);
}

proof fn lemma_scan_pair(a: Seq<Seq<char>>, r: Seq<char>, f: Seq<char>)
    ensures
        scan(a + seq![r, f]) == scan_step(scan_step(scan(a), r), f),
{
    lemma_scan_concat(a, seq![r, f]);
    let st = scan(a);
    assert(seq![r, f].drop_last() =~= seq![r]);
    assert(seq![r, f].last() == f);
    assert(seq![r].drop_last() =~= Seq::<Seq<char>>::empty());
    assert(seq![r].last() == r);
    assert(scan_from(st, Seq::<Seq<char>>::empty()) == st);
    assert(scan_from(st, seq![r]) == scan_step(st, r));
    assert(scan_from(st, seq![r, f]) == scan_step(scan_from(st, seq![r]), f));
}

/// Standard output is appended to only where the line holds `>>` or `1>>`, and
/// standard error only where it holds `2>>`.
pub proof fn law_appending_needs_an_appending_word(words: Seq<Seq<char>>)
    ensures
        !words.contains(">>"@) && !words.contains("1>>"@) ==> !scan(words).stdout_append,
        !words.contains("2>>"@) ==> !scan(words).stderr_append,
    decreases words.len(),
{
    if words.len() > 0 {
        let init = words.drop_last();
        law_appending_needs_an_appending_word(init);
        assert forall|w: Seq<char>| init.contains(w) implies words.contains(w) by {
            let k = choose|k: int| 0 <= k < init.len() && init[k] == w;
            assert(words[k] == w);
        }
        assert(words.contains(words.last())) by {
            assert(words[words.len() - 1] == words.last());
        }
    }
}

/// Only a word that holds `>`, or is `;`, `&&` or `||`, is refused as an
/// unsupported operator; and every redirection word holds `>`. Numbers and
/// other plain words are ordinary words.
pub proof fn law_operators_are_marked(w: Seq<char>)
    ensures
        is_unsupported_operator(w) ==> (w.contains('>') || w == ";"@ || w == "&&"@ || w == "||"@),
        is_redirection(w) ==> w.contains('>'),
{
    reveal_strlit(">");
    reveal_strlit("1>");
    reveal_strlit(">>");
    reveal_strlit("1>>");
    reveal_strlit("2>");
    reveal_strlit("2>>");
    reveal_strlit("&>");
    if w.len() >= 2 && w[1] == '>' {
        assert(w.contains(w[1]));
    }
    if w.len() >= 1 && w[0] == '>' {
        assert(w.contains(w[0]));
    }
    if w.len() >= 3 && w[2] == '>' {
        assert(w.contains(w[2]));
    }
}

/// A word list of plain words (none holding `>`, none of `;`, `&&`, `||`) is
/// read as it stands; it is supported exactly where a task can be made of it,
/// and where its first word names no builtin it runs that program with all its
/// words, nothing redirected.
pub proof fn law_plain_words_are_a_program(words: Seq<Seq<char>>)
    requires
        forall|i: int|
            0 <= i < words.len() ==> !(#[trigger] words[i]).contains('>') && words[i] != ";"@
                && words[i] != "&&"@ && words[i] != "||"@,
    ensures
        scan(words) == (Scan { argv: words, ..scan_start() }),
        command_supported(words) == task_accepts(words),
        words.len() >= 1 && !builtin_names().contains(words[0]) ==> command_supported(words)
            && command_of(words) == Ok::<CommandView, u8>(
            CommandView {
                task: TaskView::Extern(words),
                stdout_to: None,
                stderr_to: None,
                stdout_append: false,
                stderr_append: false,
            },
        ),
{
    assert forall|i: int| 0 <= i < words.len() implies !is_redirection(#[trigger] words[i])
        && !is_unsupported_operator(words[i]) by {
        law_operators_are_marked(words[i]);
    }
    law_plain_words_run_as_given(words);
    if words.len() >= 1 && !builtin_names().contains(words[0]) {
        law_builtin_words_make_builtin_tasks(words);
        assert(builtin_names()[2] == "cd"@);
        assert(builtin_names()[3] == "echo"@);
        assert(builtin_names()[4] == "type"@);
        assert(words[0] != "type"@ && words[0] != "cd"@ && words[0] != "echo"@);
    }
}

/// The word lists that the shell can evaluate: they use no unsupported
/// operator, and what remains of them after the redirections is a command that
/// a task can be made of (see `task_accepts`).
pub open spec fn command_supported(words: Seq<Seq<char>>) -> bool {
    !scan(words).unsupported && task_accepts(scan(words).argv)
}

/// The command that a word list stands for, or the argument count that its
/// builtin refused.
pub open spec fn command_of(words: Seq<Seq<char>>) -> Result<CommandView, u8> {
    let st = scan(words);
    match task_of(st.argv) {
        Ok(t) => Ok(
            CommandView {
                task: t,
                stdout_to: st.stdout_to,
                stderr_to: st.stderr_to,
                stdout_append: st.stdout_append,
                stderr_append: st.stderr_append,
            },
        ),
        Err(n) => Err(n),
    }
}

/// A word list without redirections or unsupported operators is the command's
/// own word list, with nothing redirected.
pub proof fn law_plain_words_run_as_given(words: Seq<Seq<char>>)
    requires
        forall|i: int|
            0 <= i < words.len() ==> !is_redirection(#[trigger] words[i])
                && !is_unsupported_operator(words[i]),
    ensures
        scan(words) == (Scan { argv: words, ..scan_start() }),
    decreases words.len(),
{
    if words.len() > 0 {
        let init = words.drop_last();
        assert forall|i: int| 0 <= i < init.len() implies !is_redirection(#[trigger] init[i])
            && !is_unsupported_operator(init[i]) by {
            assert(init[i] == words[i]);
        }
        law_plain_words_run_as_given(init);
        assert(!is_redirection(words[words.len() - 1]));
        assert(!is_unsupported_operator(words[words.len() - 1]));
        assert(init.push(words.last()) =~= words);
    } else {
        assert(words =~= seq![]);
    }
}

/// A word list without redirections or unsupported operators evaluates to the
/// task that `CommandTask::try_from` makes of it, with nothing redirected (or
/// to the same argument-count error).
pub proof fn law_plain_words_evaluate_as_task(words: Seq<Seq<char>>)
    requires
        forall|i: int|
            0 <= i < words.len() ==> !is_redirection(#[trigger] words[i])
                && !is_unsupported_operator(words[i]),
    ensures
        command_of(words) == match task_of(words) {
            Ok(t) => Ok::<CommandView, u8>(
                CommandView {
                    task: t,
                    stdout_to: None,
                    stderr_to: None,
                    stdout_append: false,
                    stderr_append: false,
                },
            ),
            Err(n) => Err(n),
        },
{
    law_plain_words_run_as_given(words);
}

/// The exec state of a scan.
#[derive(Clone, Copy)]
enum ParseState {
    Command,
    RedirStdout,
    RedirStderr,
}

/// What a scan of a command line's words found.
pub(crate) struct ScannedWords {
    pub(crate) argv: Vec<String>,
    pub(crate) stdout_to: Option<String>,
    pub(crate) stderr_to: Option<String>,
    pub(crate) stdout_append: bool,
    pub(crate) stderr_append: bool,
    pub(crate) unsupported: bool,
}

spec fn mode_of(p: ParseState) -> ScanMode {
    match p {
        ParseState::Command => ScanMode::Command,
        ParseState::RedirStdout => ScanMode::RedirStdout,
        ParseState::RedirStderr => ScanMode::RedirStderr,
    }
}

/// Whether a word is an operator that the shell does not support.
fn unsupported_operator(part: &String) -> (r: bool)
    ensures
        r == is_unsupported_operator(part@),
{
    let s = part.as_str();
    let numbered = s.unicode_len() >= 2 && is_numeric(s.get_char(0)) && s.get_char(1) == '>';
    numbered || same_text(s, "&>") || same_text(s, ";") || same_text(s, "&&") || same_text(s, "||")
}

/// Reads a command line's words: the redirections and the command's own words.
pub(crate) fn scan_words(parts: &[String]) -> (r: ScannedWords)
    ensures
        r.argv.deep_view() == scan(parts.deep_view()).argv,
        r.stdout_to.deep_view() == scan(parts.deep_view()).stdout_to,
        r.stderr_to.deep_view() == scan(parts.deep_view()).stderr_to,
        r.stdout_append == scan(parts.deep_view()).stdout_append,
        r.stderr_append == scan(parts.deep_view()).stderr_append,
        r.unsupported == scan(parts.deep_view()).unsupported,
{
    let ghost words = parts.deep_view();
    let mut pstate = ParseState::Command;
    let mut stdout_path: Option<String> = None;
    let mut stderr_path: Option<String> = None;
    let mut stdout_append = false;
    let mut stderr_append = false;
    let mut unsupported = false;
    let mut argv: Vec<String> = Vec::new();
    let mut i: usize = 0;
    assert(words.take(0) =~= seq![]);
    assert(argv.deep_view() =~= seq![]);
    while i < parts.len()
        invariant
            words == parts.deep_view(),
            i <= parts@.len(),
            mode_of(pstate) == scan(words.take(i as int)).mode,
            argv.deep_view() == scan(words.take(i as int)).argv,
            stdout_path.deep_view() == scan(words.take(i as int)).stdout_to,
            stderr_path.deep_view() == scan(words.take(i as int)).stderr_to,
            stdout_append == scan(words.take(i as int)).stdout_append,
            stderr_append == scan(words.take(i as int)).stderr_append,
            unsupported == scan(words.take(i as int)).unsupported,
        decreases parts@.len() - i,
    {
        let part = &parts[i];
        assert(words[i as int] == part@);
        assert(words.take(i + 1).drop_last() =~= words.take(i as int));
        assert(words.take(i + 1).last() == part@);
        match pstate {
            ParseState::Command => {
                let p = part.as_str();
                if same_text(p, "1>") || same_text(p, ">") {
                    pstate = ParseState::RedirStdout;
                } else if same_text(p, "1>>") || same_text(p, ">>") {
                    pstate = ParseState::RedirStdout;
                    stdout_append = true;
                } else if same_text(p, "2>") {
                    pstate = ParseState::RedirStderr;
                } else if same_text(p, "2>>") {
                    pstate = ParseState::RedirStderr;
                    stderr_append = true;
                } else if unsupported_operator(part) {
                    unsupported = true;
                } else {
                    let w = part.clone();
                    let ghost before = argv@;
                    let ghost before_deep = argv.deep_view();
                    argv.push(w);
                    assert(before_deep.len() == before.len());
                    assert forall|k: int| 0 <= k < argv@.len() implies argv.deep_view()[k]
                        == before_deep.push(part@)[k] by {
                        if k < before.len() {
                            assert(argv@[k] == before[k]);
                        }
                    }
                    assert(argv.deep_view() =~= before_deep.push(part@));
                }
            },
            ParseState::RedirStdout => {
                stdout_path = Some(part.clone());
                pstate = ParseState::Command;
            },
            ParseState::RedirStderr => {
                stderr_path = Some(part.clone());
                pstate = ParseState::Command;
            },
        }
        i = i + 1;
    }
    assert(words.take(parts@.len() as int) =~= words);
    ScannedWords {
        argv,
        stdout_to: stdout_path,
        stderr_to: stderr_path,
        stdout_append,
        stderr_append,
        unsupported,
    }
}

/// Makes the task of a command's words: the result is that of
/// `CommandTask::try_from` on the same words (both are stated by `task_of`).
pub fn eval_task(command: &[String]) -> (r: Result<CommandTask, EvaluatorError>)
    requires
        task_accepts(command.deep_view()),
    ensures
        match task_of(command.deep_view()) {
            Ok(t) => r matches Ok(c) && c@ == t,
            Err(n) => r matches Err(EvaluatorError::WrongNumberOfArguments(m)) && m == n,
        },
{
    CommandTask::try_from(command)
}

/// Evaluates a command line's words: reads the redirections of standard output
/// (`>`, `1>`, appending `>>`, `1>>`) and of standard error (`2>`, `2>>`), each
/// followed by its file, and makes a task of the remaining words.
pub fn eval_command(parts: &[String]) -> (r: Result<Command, EvaluatorError>)
    requires
        command_supported(parts.deep_view()),
    ensures
        match command_of(parts.deep_view()) {
            Ok(c) => r matches Ok(cmd) && cmd@ == c,
            Err(n) => r matches Err(EvaluatorError::WrongNumberOfArguments(m)) && m == n,
        },
{
    let sc = scan_words(parts);
    let ScannedWords { argv, stdout_to, stderr_to, stdout_append, stderr_append, unsupported: _ } =
        sc;
    let ct = eval_task(&argv)?;
    let cc = Command::new(ct).with_stdout_to(stdout_to).with_stderr_to(stderr_to).with_stdout_append(
        stdout_append,
    ).with_stderr_append(stderr_append);
    Ok(cc)
}

/// Whether the shell can evaluate a command line's words (see `command_supported`).
pub fn supports_command(parts: &[String]) -> (r: bool)
    ensures
        r == command_supported(parts.deep_view()),
{
    let sc = scan_words(parts);
    !sc.unsupported && accepts_task(sc.argv.as_slice())
}

/// The command lines that the shell can evaluate: those that cannot be split
/// into words, which are refused with an error, and those whose words it
/// supports.
pub open spec fn line_supported(line: Seq<char>) -> bool {
    match shlex_split(normalized(line, '_')) {
        Some(words) => command_supported(words),
        None => true,
    }
}

/// A line without `>` is split as it stands: `eval_raw` on it is `split`
/// followed by `eval_command`.
pub proof fn law_plain_line_splits_as_given(line: Seq<char>)
    requires
        !line.contains('>'),
    ensures
        shlex_split(normalized(line, '_')) == shlex_split(line),
        line_supported(line) == match shlex_split(line) {
            Some(words) => command_supported(words),
            None => true,
        },
{
    law_plain_line_unchanged(line);
}

/// Evaluates a raw command line: rewrites its redirection operators so that they
/// stand apart, splits it into words with shell quoting, and evaluates the words.
pub fn eval_raw(command_raw: &str) -> (r: Result<Command, EvaluatorError>)
    requires
        line_supported(command_raw@),
    ensures
        match shlex_split(normalized(command_raw@, '_')) {
            None => r matches Err(EvaluatorError::SplitError),
            Some(words) => match command_of(words) {
                Ok(c) => r matches Ok(cmd) && cmd@ == c,
                Err(n) => r matches Err(EvaluatorError::WrongNumberOfArguments(m)) && m == n,
            },
        },
{
    let normalized = normalize_redirections(command_raw);
    let parts = split(normalized.as_str())?;
    eval_command(parts.as_slice())
}

/// Evaluates a raw command line as `eval_raw` does, where the shell supports
/// it; `None` for a line that uses an operator the shell does not support, that
/// has no command word, or that asks `type` about an empty word.
pub fn eval_raw_checked(command_raw: &str) -> (r: Option<Result<Command, EvaluatorError>>)
    ensures
        r is None <==> !line_supported(command_raw@),
        r matches Some(res) ==> match shlex_split(normalized(command_raw@, '_')) {
            None => res matches Err(EvaluatorError::SplitError),
            Some(words) => match command_of(words) {
                Ok(c) => res matches Ok(cmd) && cmd@ == c,
                Err(n) => res matches Err(EvaluatorError::WrongNumberOfArguments(m)) && m == n,
            },
        },
{
    let normalized = normalize_redirections(command_raw);
    match split(normalized.as_str()) {
        Err(_) => Some(eval_raw(command_raw)),
        Ok(parts) => {
            if supports_command(parts.as_slice()) {
                Some(eval_raw(command_raw))
            } else {
                None
            }
        },
    }
}

/// The pieces of `s` between the occurrences of `sep`, as `str::split` makes
/// them: empty pieces included, and one empty piece for an empty `s`.
pub open spec fn split_on(s: Seq<char>, sep: char) -> Seq<Seq<char>>
    decreases s.len(),
{
    if s.len() == 0 {
        seq![seq![]]
    } else {
        let p = split_on(s.drop_last(), sep);
        let c = s.last();
        if c == sep {
            p.push(seq![])
        } else {
            p.update(p.len() - 1, p.last().push(c))
        }
    }
}

proof fn lemma_split_on_nonempty(s: Seq<char>, sep: char)
    ensures
        split_on(s, sep).len() >= 1,
    decreases s.len(),
{
    if s.len() > 0 {
        lemma_split_on_nonempty(s.drop_last(), sep);
    }
}

/// The directories of a `PATH` value: the pieces between its colons.
pub fn path_entries(path_env: &str) -> (r: Vec<String>)
    ensures
        r.deep_view() == split_on(path_env@, ':'),
{
    let v = chars_of(path_env);
    let mut done: Vec<String> = Vec::new();
    let mut cur = String::new();
    let mut i: usize = 0;
    assert(v@.take(0) =~= seq![]);
    assert(done.deep_view().push(cur@) =~= seq![seq![]]);
    while i < v.len()
        invariant
            v@ == path_env@,
            i <= v@.len(),
            done.deep_view().push(cur@) == split_on(v@.take(i as int), ':'),
        decreases v@.len() - i,
    {
        let c = v[i];
        let ghost prev = v@.take(i as int);
        assert(v@.take(i + 1).drop_last() =~= prev);
        assert(v@.take(i + 1).last() == c);
        proof {
            lemma_split_on_nonempty(prev, ':');
        }
        let ghost before = done@;
        let ghost before_deep = done.deep_view();
        assert(before_deep.len() == before.len());
        if c == ':' {
            let piece = cur;
            cur = String::new();
            done.push(piece);
            assert forall|k: int| 0 <= k < done@.len() implies done.deep_view()[k]
                == before_deep.push(piece@)[k] by {
                if k < before.len() {
                    assert(done@[k] == before[k]);
                }
            }
            assert(done.deep_view() =~= before_deep.push(piece@));
            assert(done.deep_view().push(cur@) =~= split_on(prev, ':').push(seq![]));
        } else {
            let ghost old_cur = cur@;
            push_char(&mut cur, c);
            assert(done.deep_view().push(cur@) =~= split_on(prev, ':').update(
                split_on(prev, ':').len() - 1,
                old_cur.push(c),
            ));
        }
        i = i + 1;
    }
    assert(v@.take(v@.len() as int) =~= v@);
    let ghost before = done@;
    let ghost before_deep = done.deep_view();
    assert(before_deep.len() == before.len());
    let last = cur;
    done.push(last);
    assert forall|k: int| 0 <= k < done@.len() implies done.deep_view()[k] == before_deep.push(
        last@,
    )[k] by {
        if k < before.len() {
            assert(done@[k] == before[k]);
        }
    }
    assert(done.deep_view() =~= before_deep.push(last@));
    done
}

/// What is known of an entry of a directory on the search path: its file
/// name, whether it is a directory, and whether it may be executed.
#[derive(Debug)]
pub struct DirEntryInfo {
    pub name: String,
    pub is_dir: bool,
    pub executable: bool,
}

/// Whether an entry is the program `wanted`: an executable file of that name.
pub open spec fn runs_as(e: DirEntryInfo, wanted: Seq<char>) -> bool {
    !e.is_dir && e.name@ == wanted && e.executable
}

/// The first entry of a directory listing that is the program `executable`.
pub fn first_executable(entries: &[DirEntryInfo], executable: &str) -> (r: Option<usize>)
    ensures
        match r {
            Some(i) => i < entries@.len() && runs_as(entries@[i as int], executable@) && forall|
                j: int,
            | 0 <= j < i ==> !runs_as(#[trigger] entries@[j], executable@),
            None => forall|j: int|
                0 <= j < entries@.len() ==> !runs_as(#[trigger] entries@[j], executable@),
        },
{
    let mut i: usize = 0;
    while i < entries.len()
        invariant
            i <= entries@.len(),
            forall|j: int| 0 <= j < i ==> !runs_as(#[trigger] entries@[j], executable@),
        decreases entries@.len() - i,
    {
        let e = &entries[i];
        if !e.is_dir && same_text(e.name.as_str(), executable) && e.executable {
            return Some(i);
        }
        i = i + 1;
    }
    None
}

/// Joining the pieces of a `PATH` value with colons gives the value back, and
/// no piece holds a colon.
pub proof fn law_path_entries_rejoin(s: Seq<char>)
    ensures
        joined(split_on(s, ':'), seq![':']) == s,
        forall|k: int|
            0 <= k < split_on(s, ':').len() ==> !(#[trigger] split_on(s, ':')[k]).contains(':'),
    decreases s.len(),
{
    if s.len() == 0 {
        assert(split_on(s, ':') =~= seq![seq![]]);
        assert(joined(seq![seq![]], seq![':']) == Seq::<char>::empty());
        assert(s =~= seq![]);
    } else {
        let init = s.drop_last();
        let c = s.last();
        let p = split_on(init, ':');
        law_path_entries_rejoin(init);
        lemma_split_on_nonempty(init, ':');
        if c == ':' {
            let q = p.push(seq![]);
            assert(q.drop_last() =~= p);
            assert(joined(q, seq![':']) == joined(p, seq![':']) + seq![':'] + Seq::<char>::empty());
            assert(init.push(c) =~= s);
            assert(joined(q, seq![':']) =~= s);
            assert forall|k: int| 0 <= k < q.len() implies !(#[trigger] q[k]).contains(':') by {
                if k < p.len() {
                    assert(q[k] == p[k]);
                }
            }
        } else {
            let n = p.len();
            let q = p.update(n - 1, p.last().push(c));
            if n == 1 {
                assert(joined(q, seq![':']) == q[0]);
                assert(joined(p, seq![':']) == p[0]);
            } else {
                assert(q.drop_last() =~= p.drop_last());
                assert(joined(q, seq![':']) == joined(p.drop_last(), seq![':']) + seq![':'] + q.last());
                assert(joined(p, seq![':']) == joined(p.drop_last(), seq![':']) + seq![':'] + p.last());
            }
            assert(init.push(c) =~= s);
            assert(joined(q, seq![':']) =~= s);
            assert forall|k: int| 0 <= k < q.len() implies !(#[trigger] q[k]).contains(':') by {
                if k < n - 1 {
                    assert(q[k] == p[k]);
                } else {
                    assert(!p[n - 1].contains(':'));
                    assert forall|j: int| 0 <= j < q[k].len() implies q[k][j] != ':' by {
                        if j < p[n - 1].len() {
                            assert(q[k][j] == p[n - 1][j]);
                            assert(p[n - 1].contains(p[n - 1][j]));
                        }
                    }
                }
            }
        }
    }
}

} // verus!
