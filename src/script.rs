//! One stored command, and how it is to be started.
use vstd::prelude::*;
use vstd::string::*;

use crate::error::PierError;
use crate::text::chars_of;

verus! {

/// A named command together with its optional notes and tags.
#[derive(Debug)]
pub struct Script {
    pub alias: String,
    pub command: String,
    pub description: Option<String>,
    pub reference: Option<String>,
    pub tags: Option<Vec<String>>,
}

/// The mathematical value of a [`Script`]: every text as its characters.
pub struct ScriptView {
    pub alias: Seq<char>,
    pub command: Seq<char>,
    pub description: Option<Seq<char>>,
    pub reference: Option<Seq<char>>,
    pub tags: Option<Seq<Seq<char>>>,
}

/// The characters of an optional text.
pub open spec fn opt_text(o: Option<String>) -> Option<Seq<char>> {
    match o {
        Some(s) => Some(s@),
        None => None,
    }
}

/// The characters of each text of a list.
pub open spec fn texts(v: Seq<String>) -> Seq<Seq<char>> {
    v.map_values(|s: String| s@)
}

/// The characters of each text of an optional list.
pub open spec fn opt_texts(o: Option<Vec<String>>) -> Option<Seq<Seq<char>>> {
    match o {
        Some(v) => Some(texts(v@)),
        None => None,
    }
}

impl View for Script {
    type V = ScriptView;

    open spec fn view(&self) -> ScriptView {
        ScriptView {
            alias: self.alias@,
            command: self.command@,
            description: opt_text(self.description),
            reference: opt_text(self.reference),
            tags: opt_texts(self.tags),
        }
    }
}

/// Where the first line of `s` ends: the index of its first line feed, or
/// the length of `s` when it holds none.
pub open spec fn line_end(s: Seq<char>) -> nat
    decreases s.len(),
{
    if s.len() == 0 {
        0
    } else if s[0] == '\n' {
        0
    } else {
        1 + line_end(s.drop_first())
    }
}

/// The first line of `s`, without its line ending (a line feed, or a carriage
/// return and a line feed); `None` when `s` is empty and so has no line.
pub open spec fn first_line(s: Seq<char>) -> Option<Seq<char>> {
    if s.len() == 0 {
        None
    } else {
        let k = line_end(s) as int;
        if k < s.len() && k > 0 && s[k - 1] == '\r' {
            Some(s.subrange(0, k - 1))
        } else {
            Some(s.subrange(0, k))
        }
    }
}

/// Whether the first line of `command` begins with the marker `#!`.
pub open spec fn starts_with_directive(command: Seq<char>) -> bool {
    match first_line(command) {
        Some(line) => line.len() >= 2 && line[0] == '#' && line[1] == '!',
        None => false,
    }
}

/// At most the first `width` characters of `s`.
pub open spec fn clip(s: Seq<char>, width: nat) -> Seq<char> {
    if s.len() <= width {
        s
    } else {
        s.subrange(0, width as int)
    }
}

/// What a listing shows of `command`: all of it when `full`, else its first
/// line cut to `width` characters (all of it when it has no line).
pub open spec fn displayed(command: Seq<char>, full: bool, width: nat) -> Seq<char> {
    if full {
        command
    } else {
        match first_line(command) {
            Some(line) => clip(line, width),
            None => command,
        }
    }
}

proof fn lemma_line_end_at(s: Seq<char>, k: int)
    requires
        0 <= k <= s.len(),
        forall|j: int| 0 <= j < k ==> s[j] != '\n',
        k == s.len() || s[k] == '\n',
    ensures
        line_end(s) == k,
    decreases k,
{
    if k > 0 {
        let t = s.drop_first();
        assert forall|j: int| 0 <= j < k - 1 implies t[j] != '\n' by {
            assert(t[j] == s[j + 1]);
        }
        if k - 1 < t.len() {
            assert(t[k - 1] == s[k]);
        }
        lemma_line_end_at(t, k - 1);
    }
}

/// The index of the first line feed of `cs`, or its length.
fn line_end_of(cs: &Vec<char>) -> (r: usize)
    ensures
        r == line_end(cs@),
        r <= cs.len(),
{
    let mut i: usize = 0;
    while i < cs.len() && cs[i] != '\n'
        invariant
            0 <= i <= cs.len(),
            forall|j: int| 0 <= j < i ==> cs@[j] != '\n',
        decreases cs.len() - i,
    {
        i = i + 1;
    }
    proof {
        lemma_line_end_at(cs@, i as int);
    }
    i
}

/// How many characters of `cs` its first line holds, line ending left out.
fn first_line_len(cs: &Vec<char>) -> (r: usize)
    requires
        cs.len() > 0,
    ensures
        r <= cs.len(),
        first_line(cs@) == Some(cs@.subrange(0, r as int)),
{
    let k = line_end_of(cs);
    if k < cs.len() && k > 0 && cs[k - 1] == '\r' {
        k - 1
    } else {
        k
    }
}

/// How a script is to be started: inline, by an interpreter that takes the
/// command as an argument, or as an executable file of its own whose
/// interpreter directive the system follows.
#[derive(Debug)]
pub enum Invocation {
    Inline { program: String, args: Vec<String> },
    Executable { file_name: String, contents: String, args: Vec<String> },
}

/// The mathematical value of an [`Invocation`].
pub enum InvocationView {
    Inline { program: Seq<char>, args: Seq<Seq<char>> },
    Executable { file_name: Seq<char>, contents: Seq<char>, args: Seq<Seq<char>> },
}

impl View for Invocation {
    type V = InvocationView;

    open spec fn view(&self) -> InvocationView {
        match self {
            Invocation::Inline { program, args } => InvocationView::Inline {
                program: program@,
                args: texts(args@),
            },
            Invocation::Executable { file_name, contents, args } => InvocationView::Executable {
                file_name: file_name@,
                contents: contents@,
                args: texts(args@),
            },
        }
    }
}

/// The inline start of `s` by `interpreter`: its first text is the program,
/// which takes the interpreter's other texts, then the command and the
/// alias, then `args`.
pub open spec fn inline_start(
    s: ScriptView,
    interpreter: Seq<Seq<char>>,
    args: Seq<Seq<char>>,
) -> InvocationView
    recommends
        interpreter.len() > 0,
{
    InvocationView::Inline {
        program: interpreter[0],
        args: interpreter.subrange(1, interpreter.len() as int) + seq![s.command, s.alias] + args,
    }
}

/// The start of `s` as an executable file: the command is the file's
/// contents, the alias its name, and `args` its arguments.
pub open spec fn executable_start(s: ScriptView, args: Seq<Seq<char>>) -> InvocationView {
    InvocationView::Executable { file_name: s.alias, contents: s.command, args }
}

/// Appends a copy of each text of `from`, starting at `start`, to `to`.
fn push_texts(to: &mut Vec<String>, from: &Vec<String>, start: usize)
    requires
        start <= from.len(),
    ensures
        texts(final(to)@) == texts(old(to)@) + texts(from@).subrange(
            start as int,
            from.len() as int,
        ),
{
    let mut i: usize = start;
    while i < from.len()
        invariant
            start <= i <= from.len(),
            texts(to@) == texts(old(to)@) + texts(from@).subrange(start as int, i as int),
        decreases from.len() - i,
    {
        let ghost prev = to@;
        let c = from[i].clone();
        to.push(c);
        assert(texts(to@) =~= texts(prev).push(from@[i as int]@));
        assert(texts(from@).subrange(start as int, i + 1) =~= texts(from@).subrange(
            start as int,
            i as int,
        ).push(from@[i as int]@));
        assert(texts(to@) =~= texts(old(to)@) + texts(from@).subrange(start as int, i + 1));
        i = i + 1;
    }
}

impl Script {
    /// Whether the command starts with an interpreter directive (`#!`).
    pub fn has_shebang(&self) -> (r: bool)
        ensures
            r == starts_with_directive(self.command@),
    {
        let cs = chars_of(self.command.as_str());
        if cs.len() == 0 {
            return false;
        }
        let n = first_line_len(&cs);
        n >= 2 && cs[0] == '#' && cs[1] == '!'
    }

    /// The command as a listing shows it: whole when `display_full`, else its
    /// first line cut to at most `width` characters.
    pub fn display_command(&self, display_full: bool, width: usize) -> (r: &str)
        ensures
            r@ == displayed(self.command@, display_full, width as nat),
    {
        let s = self.command.as_str();
        if display_full {
            return s;
        }
        let cs = chars_of(s);
        if cs.len() == 0 {
            return s;
        }
        let n = first_line_len(&cs);
        let cut = if n <= width {
            n
        } else {
            width
        };
        s.substring_char(0, cut)
    }

    /// How to start the script inline by `interpreter`. An empty interpreter
    /// names no program, so nothing can be started.
    pub fn inline_invocation(&self, interpreter: &Vec<String>, args: Vec<String>) -> (r: Result<
        Invocation,
        PierError,
    >)
        ensures
            interpreter.len() == 0 <==> r is Err,
            r matches Err(e) ==> e is CommandExec,
            r matches Ok(inv) ==> inv@ == inline_start(self@, texts(interpreter@), texts(args@)),
    {
        if interpreter.len() == 0 {
            let message = String::from_str("the interpreter names no program");
            return Err(PierError::CommandExec { message });
        }
        let mut all: Vec<String> = Vec::new();
        push_texts(&mut all, interpreter, 1);
        all.push(self.command.clone());
        all.push(self.alias.clone());
        push_texts(&mut all, &args, 0);
        let ghost t = texts(interpreter@);
        assert(texts(args@).subrange(0, args.len() as int) =~= texts(args@));
        assert(texts(all@) =~= t.subrange(1, t.len() as int) + seq![self.command@, self.alias@]
            + texts(args@));
        Ok(Invocation::Inline { program: interpreter[0].clone(), args: all })
    }

    /// How to start the script as an executable file of its own.
    pub fn executable_invocation(&self, args: Vec<String>) -> (r: Invocation)
        ensures
            r@ == executable_start(self@, texts(args@)),
    {
        Invocation::Executable {
            file_name: self.alias.clone(),
            contents: self.command.clone(),
            args,
        }
    }

    /// A script equal to this one, field for field.
    pub fn duplicate(&self) -> (r: Script)
        ensures
            r@ == self@,
    {
        let tags = match &self.tags {
            Some(t) => {
                let mut v: Vec<String> = Vec::new();
                push_texts(&mut v, t, 0);
                assert(texts(t@).subrange(0, t.len() as int) =~= texts(t@));
                assert(texts(v@) =~= texts(t@));
                Some(v)
            },
            None => None,
        };
        Script {
            alias: self.alias.clone(),
            command: self.command.clone(),
            description: self.description.clone(),
            reference: self.reference.clone(),
            tags,
        }
    }
}

} // verus!
