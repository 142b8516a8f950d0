use vstd::prelude::*;
use crate::aliases::Aliases;
use crate::text::char_vec;
use crate::text::push_char;
use crate::text::str_eq;
use crate::tokenize::join_spaces;
use crate::tokenize::join_words;
use crate::tokenize::space_words;
use crate::tokenize::split_spaces;

verus! {

/// `s` with leading spaces removed.
pub open spec fn trim_front(s: Seq<char>) -> Seq<char>
    decreases s.len(),
{
    if s.len() > 0 && s[0] == ' ' {
        trim_front(s.drop_first())
    } else {
        s
    }
}

/// `s` with trailing spaces removed.
pub open spec fn trim_back(s: Seq<char>) -> Seq<char>
    decreases s.len(),
{
    if s.len() > 0 && s[s.len() - 1] == ' ' {
        trim_back(s.drop_last())
    } else {
        s
    }
}

/// `s` with leading and trailing spaces removed.
pub open spec fn trim_spaces(s: Seq<char>) -> Seq<char> {
    trim_back(trim_front(s))
}

/// The pipe-separated segments of `s[i..]`, `cur` partially accumulated.
/// The separator is the exact three-character sequence of space, bar, space,
/// found leftmost-first; a split always yields at least one segment.
pub open spec fn pipe_split_from(s: Seq<char>, i: int, cur: Seq<char>) -> Seq<Seq<char>>
    decreases s.len() - i,
{
    if i < 0 || i >= s.len() {
        seq![cur]
    } else if i + 3 <= s.len() && s[i] == ' ' && s[i + 1] == '|' && s[i + 2] == ' ' {
        seq![cur] + pipe_split_from(s, i + 3, Seq::empty())
    } else {
        pipe_split_from(s, i + 1, cur.push(s[i]))
    }
}

/// The stages of a line: the line is trimmed of outer spaces, then split on
/// every space-bar-space separator, in order.
pub open spec fn pipeline_segments(s: Seq<char>) -> Seq<Seq<char>> {
    pipe_split_from(trim_spaces(s), 0, Seq::empty())
}

/// Split a line into its pipeline segments on the separator space-bar-space,
/// after trimming outer spaces.
#[verifier::loop_isolation(false)]
pub fn split_pipeline(line: &str) -> (r: Vec<String>)
    ensures
        r.deep_view() == pipeline_segments(line@),
{
    let chars = char_vec(line);
    let n = chars.len();

    let mut start: usize = 0;
    proof {
        assert(line@.skip(0) =~= line@);
    }
    while start < n && chars[start] == ' '
        invariant
            0 <= start <= n,
            n == chars@.len(),
            chars@ == line@,
            trim_front(line@) == trim_front(line@.skip(start as int)),
        decreases n - start,
    {
        proof {
            assert(line@.skip(start as int).drop_first() =~= line@.skip(start as int + 1));
        }
        start = start + 1;
    }
    proof {
        assert(trim_front(line@) == line@.skip(start as int));
    }

    let mut end: usize = n;
    proof {
        assert(line@.subrange(start as int, n as int) =~= line@.skip(start as int));
    }
    while end > start && chars[end - 1] == ' '
        invariant
            start <= end <= n,
            n == chars@.len(),
            chars@ == line@,
            trim_back(line@.skip(start as int)) == trim_back(
                line@.subrange(start as int, end as int),
            ),
        decreases end,
    {
        proof {
            let sub = line@.subrange(start as int, end as int);
            assert(sub[sub.len() - 1] == line@[end - 1]);
            assert(sub.drop_last() =~= line@.subrange(start as int, end as int - 1));
        }
        end = end - 1;
    }
    proof {
        let sub = line@.subrange(start as int, end as int);
        if end > start {
            assert(sub[sub.len() - 1] == line@[end - 1]);
        }
        assert(trim_back(sub) == sub);
        assert(trim_spaces(line@) == line@.subrange(start as int, end as int));
    }

    let mut tcs: Vec<char> = Vec::new();
    for i in start..end
        invariant
            start <= i <= end <= n,
            n == chars@.len(),
            chars@ == line@,
            tcs@.len() == i - start,
            forall|j: int| 0 <= j < tcs@.len() ==> tcs@[j] == line@[start + j],
    {
        tcs.push(chars[i]);
    }
    proof {
        assert(tcs@ =~= line@.subrange(start as int, end as int));
        assert(tcs@ == trim_spaces(line@));
    }

    let ghost t = tcs@;
    let m = tcs.len();
    let mut segs: Vec<String> = Vec::new();
    let mut cur = String::new();
    let mut i: usize = 0;
    proof {
        assert(segs.deep_view() + pipe_split_from(t, 0, Seq::empty()) =~= pipe_split_from(
            t,
            0,
            Seq::empty(),
        ));
    }
    while i < m
        invariant
            0 <= i <= m,
            m == tcs@.len(),
            tcs@ == t,
            pipe_split_from(t, 0, Seq::empty()) == segs.deep_view() + pipe_split_from(
                t,
                i as int,
                cur@,
            ),
        decreases m - i,
    {
        let ghost ii = i as int;
        let ghost prev = segs.deep_view();
        let ghost curv = cur@;
        if m - i >= 3 && tcs[i] == ' ' && tcs[i + 1] == '|' && tcs[i + 2] == ' ' {
            segs.push(cur);
            cur = String::new();
            proof {
                let rest = pipe_split_from(t, ii + 3, Seq::empty());
                assert(pipe_split_from(t, ii, curv) == seq![curv] + rest);
                assert(segs.deep_view() =~= prev + seq![curv]);
                assert((prev + seq![curv]) + rest =~= prev + (seq![curv] + rest));
            }
            i = i + 3;
        } else {
            push_char(&mut cur, tcs[i]);
            proof {
                assert(pipe_split_from(t, ii, curv) == pipe_split_from(t, ii + 1, curv.push(t[ii])));
            }
            i = i + 1;
        }
    }
    let ghost prev = segs.deep_view();
    let ghost curv = cur@;
    segs.push(cur);
    proof {
        assert(pipe_split_from(t, m as int, curv) == seq![curv]);
        assert(segs.deep_view() =~= prev + seq![curv]);
    }
    segs
}

/// The lines of a script text, split on newlines, a trailing final newline
/// producing no extra empty line.
pub open spec fn lines_from(s: Seq<char>, i: int, cur: Seq<char>) -> Seq<Seq<char>>
    decreases s.len() - i,
{
    if i < 0 || i >= s.len() {
        if cur.len() > 0 {
            seq![cur]
        } else {
            Seq::empty()
        }
    } else if s[i] == '\n' {
        seq![cur] + lines_from(s, i + 1, Seq::empty())
    } else {
        lines_from(s, i + 1, cur.push(s[i]))
    }
}

pub open spec fn script_lines(s: Seq<char>) -> Seq<Seq<char>> {
    lines_from(s, 0, Seq::empty())
}

/// Split a script text into the lines the interpreter evaluates one by one.
#[verifier::loop_isolation(false)]
pub fn split_script_lines(text: &str) -> (r: Vec<String>)
    ensures
        r.deep_view() == script_lines(text@),
{
    let chars = char_vec(text);
    let n = chars.len();
    let mut out: Vec<String> = Vec::new();
    let mut current = String::new();
    proof {
        assert(out.deep_view() + script_lines(text@) =~= script_lines(text@));
    }
    for i in 0..n
        invariant
            n == chars@.len(),
            chars@ == text@,
            script_lines(text@) == out.deep_view() + lines_from(text@, i as int, current@),
    {
        let ghost ii = i as int;
        let ghost prev = out.deep_view();
        let ghost curv = current@;
        let ch = chars[i];
        if ch == '\n' {
            out.push(current);
            current = String::new();
            proof {
                let rest = lines_from(text@, ii + 1, Seq::empty());
                assert(lines_from(text@, ii, curv) == seq![curv] + rest);
                assert(out.deep_view() =~= prev + seq![curv]);
                assert((prev + seq![curv]) + rest =~= prev + (seq![curv] + rest));
            }
        } else {
            push_char(&mut current, ch);
            proof {
                assert(lines_from(text@, ii, curv) == lines_from(text@, ii + 1, curv.push(ch)));
            }
        }
    }
    if !current.as_str().is_empty() {
        let ghost prev = out.deep_view();
        let ghost curv = current@;
        out.push(current);
        proof {
            assert(out.deep_view() =~= prev + seq![curv]);
        }
    } else {
        proof {
            assert(current@ =~= Seq::<char>::empty());
            assert(out.deep_view() + Seq::<Seq<char>>::empty() =~= out.deep_view());
        }
    }
    out
}

/// Whether a script line is a comment: it begins with a hash.
pub fn is_comment(line: &str) -> (r: bool)
    ensures
        r == (line@.len() > 0 && line@[0] == '#'),
{
    if line.unicode_len() == 0 {
        return false;
    }
    line.get_char(0) == '#'
}

/// Whether a word names a built-in. Built-ins are dispatched before the
/// alias table is consulted, so an alias can never shadow one.
pub open spec fn is_builtin_name(w: Seq<char>) -> bool {
    ||| w == "cd"@
    ||| w == "exit"@
    ||| w == "exec"@
    ||| w == "set-mode"@
    ||| w == "set-prompt"@
    ||| w == "set-prompt-mode"@
    ||| w == "alias"@
    ||| w == "aliases"@
    ||| w == "echo"@
}

/// The words of an external segment after alias expansion: if the first word
/// names an alias whose phrase has any words, the phrase's words replace the
/// first word, in order, ahead of the remaining original words; otherwise the
/// segment is unchanged.
pub open spec fn expanded_words(t: Aliases, ws: Seq<Seq<char>>) -> Seq<Seq<char>>
    recommends
        ws.len() > 0,
{
    if t.contains_name(ws[0]) {
        let pw = space_words(t.phrase_for(ws[0]));
        if pw.len() >= 1 {
            pw + ws.skip(1)
        } else {
            ws
        }
    } else {
        ws
    }
}

pub enum KeyMode {
    Vi,
    Emacs,
}

pub enum PromptStyle {
    Basic,
    Reactive,
}

/// What one pipeline segment asks the interpreter to do. Built-ins are
/// handled in-process and never spawned; only `Spawn` joins the pipeline.
pub enum SegmentAction {
    /// The segment has no words: the rest of the line is abandoned.
    Empty,
    /// `cd`: change the working directory, to `/` when no path is given.
    ChangeDir { path: String },
    /// `exit`: flush history and terminate the interpreter.
    Exit,
    /// `exec`: evaluate the joined arguments as a line, then exit.
    Exec { line: String },
    /// `set-mode`: select the line editor's key bindings.
    SetKeyMode { mode: KeyMode },
    /// `set-prompt`: replace the prompt template with the joined arguments.
    SetPromptTemplate { template: String },
    /// `set-prompt-mode`: select how the prompt template is rendered.
    SetPromptStyle { style: PromptStyle },
    /// `alias`: upsert a name and its phrase into the alias table.
    DefineAlias { name: String, target: String },
    /// `aliases`: print every (name, phrase) pair.
    ListAliases,
    /// `echo`: print the joined arguments.
    Echo { text: String },
    /// An external command, alias-expanded, to be spawned in the pipeline.
    Spawn { command: String, args: Vec<String> },
    /// A malformed built-in use: report it, and abandon the rest of the
    /// line's segments when `abort_line` holds.
    UsageError { message: String, abort_line: bool },
}

fn usage_error(message: &str, abort_line: bool) -> (r: SegmentAction)
    ensures
        (r matches SegmentAction::UsageError { message: m, abort_line: a } && m@ == message@
            && a == abort_line),
{
    SegmentAction::UsageError { message: String::from_str(message), abort_line }
}

/// Decide what one tokenized segment does: an empty segment abandons the
/// line; a recognized built-in name is dispatched with its arguments; any
/// other first word is alias-expanded and becomes an external command.
#[verifier::loop_isolation(false)]
pub fn segment_action(aliases: &Aliases, words: &Vec<String>) -> (r: SegmentAction)
    requires
        aliases.wf(),
    ensures
        words.deep_view().len() == 0 ==> r is Empty,
        words.deep_view().len() > 0 && words.deep_view()[0] == "cd"@ ==> (r
            matches SegmentAction::ChangeDir { path } && path@ == (if words.deep_view().len() > 1 {
            words.deep_view()[1]
        } else {
            "/"@
        })),
        words.deep_view().len() > 0 && words.deep_view()[0] == "exit"@ ==> r is Exit,
        words.deep_view().len() > 0 && words.deep_view()[0] == "exec"@ ==> (r
            matches SegmentAction::Exec { line } && line@ == join_spaces(
            words.deep_view().skip(1),
        )),
        words.deep_view().len() == 1 && (words.deep_view()[0] == "set-mode"@
            || words.deep_view()[0] == "set-prompt-mode"@) ==> (r
            matches SegmentAction::UsageError { message, abort_line } && message@
            == "missing mode"@ && abort_line),
        words.deep_view().len() > 1 && words.deep_view()[0] == "set-mode"@ ==> {
            if words.deep_view()[1] == "vi"@ {
                r matches SegmentAction::SetKeyMode { mode } && mode is Vi
            } else if words.deep_view()[1] == "emacs"@ {
                r matches SegmentAction::SetKeyMode { mode } && mode is Emacs
            } else {
                r matches SegmentAction::UsageError { message, abort_line } && message@
                    == "invalid mode"@ && !abort_line
            }
        },
        words.deep_view().len() > 0 && words.deep_view()[0] == "set-prompt"@ ==> (r
            matches SegmentAction::SetPromptTemplate { template } && template@ == join_spaces(
            words.deep_view().skip(1),
        )),
        words.deep_view().len() > 1 && words.deep_view()[0] == "set-prompt-mode"@ ==> {
            if words.deep_view()[1] == "basic"@ {
                r matches SegmentAction::SetPromptStyle { style } && style is Basic
            } else if words.deep_view()[1] == "reactive"@ {
                r matches SegmentAction::SetPromptStyle { style } && style is Reactive
            } else {
                r matches SegmentAction::UsageError { message, abort_line } && message@
                    == "invalid mode"@ && !abort_line
            }
        },
        words.deep_view().len() == 1 && words.deep_view()[0] == "alias"@ ==> (r
            matches SegmentAction::UsageError { message, abort_line } && message@
            == "missing alias"@ && abort_line),
        words.deep_view().len() == 2 && words.deep_view()[0] == "alias"@ ==> (r
            matches SegmentAction::UsageError { message, abort_line } && message@
            == "missing alias target"@ && abort_line),
        words.deep_view().len() >= 3 && words.deep_view()[0] == "alias"@ ==> (r
            matches SegmentAction::DefineAlias { name, target } && name@ == words.deep_view()[1]
            && target@ == join_spaces(words.deep_view().skip(2))),
        words.deep_view().len() > 0 && words.deep_view()[0] == "aliases"@ ==> r is ListAliases,
        words.deep_view().len() > 0 && words.deep_view()[0] == "echo"@ ==> (r
            matches SegmentAction::Echo { text } && text@ == join_spaces(
            words.deep_view().skip(1),
        )),
        words.deep_view().len() > 0 && !is_builtin_name(words.deep_view()[0]) ==> (r
            matches SegmentAction::Spawn { command, args } && command@ == expanded_words(
            *aliases,
            words.deep_view(),
        )[0] && args.deep_view() == expanded_words(*aliases, words.deep_view()).skip(1)),
{
    proof {
        reveal_strlit("cd");
        reveal_strlit("exit");
        reveal_strlit("exec");
        reveal_strlit("set-mode");
        reveal_strlit("set-prompt");
        reveal_strlit("set-prompt-mode");
        reveal_strlit("alias");
        reveal_strlit("aliases");
        reveal_strlit("echo");
        reveal_strlit("vi");
        reveal_strlit("emacs");
        reveal_strlit("basic");
        reveal_strlit("reactive");
        assert("exit"@ != "exec"@) by {
            assert("exit"@[2] != "exec"@[2]);
        }
        assert("exit"@ != "echo"@) by {
            assert("exit"@[1] != "echo"@[1]);
        }
        assert("exec"@ != "echo"@) by {
            assert("exec"@[1] != "echo"@[1]);
        }
    }
    let ghost dv = words.deep_view();
    if words.len() == 0 {
        return SegmentAction::Empty;
    }
    let w0 = words[0].as_str();
    proof {
        assert(dv[0] == w0@);
    }
    if str_eq(w0, "cd") {
        let path = if words.len() > 1 {
            words[1].clone()
        } else {
            String::from_str("/")
        };
        return SegmentAction::ChangeDir { path };
    }
    if str_eq(w0, "exit") {
        return SegmentAction::Exit;
    }
    if str_eq(w0, "exec") {
        return SegmentAction::Exec { line: join_words(words, 1) };
    }
    if str_eq(w0, "set-mode") {
        if words.len() < 2 {
            return usage_error("missing mode", true);
        }
        let m = words[1].as_str();
        if str_eq(m, "vi") {
            return SegmentAction::SetKeyMode { mode: KeyMode::Vi };
        }
        if str_eq(m, "emacs") {
            return SegmentAction::SetKeyMode { mode: KeyMode::Emacs };
        }
        return usage_error("invalid mode", false);
    }
    if str_eq(w0, "set-prompt") {
        return SegmentAction::SetPromptTemplate { template: join_words(words, 1) };
    }
    if str_eq(w0, "set-prompt-mode") {
        if words.len() < 2 {
            return usage_error("missing mode", true);
        }
        let m = words[1].as_str();
        if str_eq(m, "basic") {
            return SegmentAction::SetPromptStyle { style: PromptStyle::Basic };
        }
        if str_eq(m, "reactive") {
            return SegmentAction::SetPromptStyle { style: PromptStyle::Reactive };
        }
        return usage_error("invalid mode", false);
    }
    if str_eq(w0, "alias") {
        if words.len() < 2 {
            return usage_error("missing alias", true);
        }
        if words.len() < 3 {
            return usage_error("missing alias target", true);
        }
        let name = words[1].clone();
        let target = join_words(words, 2);
        return SegmentAction::DefineAlias { name, target };
    }
    if str_eq(w0, "aliases") {
        return SegmentAction::ListAliases;
    }
    if str_eq(w0, "echo") {
        return SegmentAction::Echo { text: join_words(words, 1) };
    }

    let looked = aliases.get(words[0].clone());
    match looked {
        Some(phrase) => {
            let pw = split_spaces(phrase.as_str());
            if pw.len() >= 1 {
                let command = pw[0].clone();
                let mut args: Vec<String> = Vec::new();
                let pn = pw.len();
                for k in 1..pn
                    invariant
                        1 <= k <= pn,
                        pn == pw@.len(),
                        args.deep_view() =~= pw.deep_view().subrange(1, k as int),
                {
                    args.push(pw[k].clone());
                    proof {
                        assert(args.deep_view() =~= pw.deep_view().subrange(1, k as int + 1));
                    }
                }
                let wn = words.len();
                proof {
                    assert(pw.deep_view().subrange(1, pn as int) =~= pw.deep_view().skip(1));
                }
                for k in 1..wn
                    invariant
                        1 <= k <= wn,
                        wn == words@.len(),
                        args.deep_view() =~= pw.deep_view().skip(1) + dv.subrange(1, k as int),
                {
                    let ghost prevargs = args.deep_view();
                    args.push(words[k].clone());
                    proof {
                        assert(dv[k as int] == words@[k as int]@);
                        assert(args.deep_view() =~= prevargs.push(dv[k as int]));
                        assert(prevargs.push(dv[k as int]) =~= pw.deep_view().skip(1)
                            + dv.subrange(1, k as int + 1));
                    }
                }
                proof {
                    let ex = expanded_words(*aliases, dv);
                    assert(pw.deep_view() == space_words(aliases.phrase_for(dv[0])));
                    assert(ex == pw.deep_view() + dv.skip(1));
                    assert(dv.subrange(1, wn as int) =~= dv.skip(1));
                    assert(ex.skip(1) =~= pw.deep_view().skip(1) + dv.skip(1));
                    assert(command@ == ex[0]);
                }
                SegmentAction::Spawn { command, args }
            } else {
                let r = spawn_unchanged(words);
                proof {
                    assert(expanded_words(*aliases, dv) == dv);
                }
                r
            }
        },
        None => {
            let r = spawn_unchanged(words);
            proof {
                assert(expanded_words(*aliases, dv) == dv);
            }
            r
        },
    }
}

/// An external segment taken verbatim: the first word is the command and the
/// rest are its arguments.
#[verifier::loop_isolation(false)]
fn spawn_unchanged(words: &Vec<String>) -> (r: SegmentAction)
    requires
        words.deep_view().len() > 0,
    ensures
        (r matches SegmentAction::Spawn { command, args } && command@ == words.deep_view()[0]
            && args.deep_view() == words.deep_view().skip(1)),
{
    let ghost dv = words.deep_view();
    let command = words[0].clone();
    let mut args: Vec<String> = Vec::new();
    let wn = words.len();
    for k in 1..wn
        invariant
            1 <= k <= wn,
            wn == words@.len(),
            args.deep_view() =~= dv.subrange(1, k as int),
    {
        args.push(words[k].clone());
        proof {
            assert(args.deep_view() =~= dv.subrange(1, k as int + 1));
        }
    }
    proof {
        assert(dv.subrange(1, wn as int) =~= dv.skip(1));
    }
    SegmentAction::Spawn { command, args }
}

pub enum StdinWiring {
    /// The stage reads the interpreter's own standard input.
    Inherit,
    /// The stage reads the captured output of the previous stage.
    FromPrevious,
}

pub enum StdoutWiring {
    /// The stage writes to the interpreter's own standard output.
    Inherit,
    /// The stage's output is captured for the next stage to consume.
    Piped,
}

pub struct StageWiring {
    pub stdin: StdinWiring,
    pub stdout: StdoutWiring,
}

/// How one spawned stage's standard streams are wired: it reads from the
/// previous stage exactly when that stage was spawned with its output
/// captured, and its own output is captured exactly when another segment
/// follows it on the line.
pub fn stage_wiring(prev_piped: bool, has_next: bool) -> (r: StageWiring)
    ensures
        (r.stdin is FromPrevious) == prev_piped,
        (r.stdout is Piped) == has_next,
{
    let stdin = if prev_piped {
        StdinWiring::FromPrevious
    } else {
        StdinWiring::Inherit
    };
    let stdout = if has_next {
        StdoutWiring::Piped
    } else {
        StdoutWiring::Inherit
    };
    StageWiring { stdin, stdout }
}

} // verus!
