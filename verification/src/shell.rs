//! Line-oriented command shell: splits a line into words, finds the command
//! that the first word names, and runs it or reports that there is none.

use vstd::prelude::*;
use vstd::string::StringExecFns;
use vstd::string::StringSliceAdditionalSpecFns;

verus! {

/// The characters that separate words.
pub open spec fn is_blank(c: char) -> bool {
    c == ' ' || c == '\t' || c == '\n' || c == '\r'
}

/// The end of the run of non-blank characters that covers position `i`; `i`
/// itself where `i` is blank or outside the line.
pub open spec fn run_end(line: Seq<char>, i: int) -> int
    decreases line.len() - i,
{
    if 0 <= i < line.len() && !is_blank(line[i]) {
        run_end(line, i + 1)
    } else {
        i
    }
}

/// The words of `line` that begin at or after `i`, each as the pair of its
/// first position and the position after its last. `i` is the start of a
/// word or a position between words.
pub open spec fn word_spans(line: Seq<char>, i: int) -> Seq<(int, int)>
    decreases line.len() - i,
{
    if !(0 <= i < line.len()) {
        Seq::empty()
    } else if is_blank(line[i]) {
        word_spans(line, i + 1)
    } else {
        proof {
            lemma_run_end_bounds(line, i + 1);
        }
        seq![(i, run_end(line, i))] + word_spans(line, run_end(line, i))
    }
}

/// The words of `line`: its maximal runs of non-blank characters, in order.
pub open spec fn words(line: Seq<char>) -> Seq<Seq<char>> {
    span_texts(line, word_spans(line, 0))
}

/// The characters that each span of `spans` cuts out of `line`.
pub open spec fn span_texts(line: Seq<char>, spans: Seq<(int, int)>) -> Seq<Seq<char>> {
    Seq::new(spans.len(), |k: int| line.subrange(spans[k].0, spans[k].1))
}

/// `[start, end)` is a word of `line`: a non-empty run of non-blank
/// characters that cannot be extended to either side.
pub open spec fn is_word(line: Seq<char>, start: int, end: int) -> bool {
    &&& 0 <= start < end <= line.len()
    &&& forall|i: int| start <= i < end ==> !is_blank(#[trigger] line[i])
    &&& (start == 0 || is_blank(line[start - 1]))
    &&& (end == line.len() || is_blank(line[end]))
}

/// The characters of each string of `args`.
pub open spec fn texts(args: Seq<&str>) -> Seq<Seq<char>> {
    args.map_values(|s: &str| s@)
}

/// A run ends at or after the position it is asked for, and within the line.
pub proof fn lemma_run_end_bounds(line: Seq<char>, i: int)
    requires
        0 <= i <= line.len(),
    ensures
        i <= run_end(line, i) <= line.len(),
        run_end(line, i) == line.len() || is_blank(line[run_end(line, i)]),
        forall|k: int| i <= k < run_end(line, i) ==> !is_blank(#[trigger] line[k]),
    decreases line.len() - i,
{
    if i < line.len() && !is_blank(line[i]) {
        lemma_run_end_bounds(line, i + 1);
    }
}

/// The spans from a position between words on are words of the line, lie at
/// or after that position in increasing order, and cover every non-blank
/// character from there on.
pub proof fn lemma_word_spans_from(line: Seq<char>, i: int)
    requires
        0 <= i <= line.len(),
        i == 0 || i == line.len() || is_blank(line[i - 1]) || is_blank(line[i]),
    ensures
        forall|k: int|
            0 <= k < word_spans(line, i).len() ==> i <= (#[trigger] word_spans(line, i)[k]).0
                && is_word(line, word_spans(line, i)[k].0, word_spans(line, i)[k].1),
        forall|k: int, l: int|
            0 <= k < l < word_spans(line, i).len() ==> (#[trigger] word_spans(line, i)[k]).1 < (
            #[trigger] word_spans(line, i)[l]).0,
        forall|j: int|
            i <= j < line.len() && !is_blank(#[trigger] line[j]) ==> exists|k: int|
                0 <= k < word_spans(line, i).len() && (#[trigger] word_spans(line, i)[k]).0 <= j
                    < word_spans(line, i)[k].1,
    decreases line.len() - i,
{
    let spans = word_spans(line, i);
    if i == line.len() {
    } else if is_blank(line[i]) {
        lemma_word_spans_from(line, i + 1);
        assert(spans == word_spans(line, i + 1));
    } else {
        let e = run_end(line, i);
        lemma_run_end_bounds(line, i);
        lemma_run_end_bounds(line, i + 1);
        lemma_word_spans_from(line, e);
        let rest = word_spans(line, e);
        assert forall|k: int| 0 <= k < spans.len() implies i <= (#[trigger] spans[k]).0 && is_word(
            line,
            spans[k].0,
            spans[k].1,
        ) by {}
        assert forall|k: int, l: int| 0 <= k < l < spans.len() implies (#[trigger] spans[k]).1 < (
        #[trigger] spans[l]).0 by {}
        assert forall|j: int| i <= j < line.len() && !is_blank(#[trigger] line[j]) implies exists|
            k: int,
        |
            0 <= k < spans.len() && (#[trigger] spans[k]).0 <= j < spans[k].1 by {
            if j < e {
                assert(spans[0].0 <= j < spans[0].1);
            } else {
                let k = choose|k: int|
                    0 <= k < rest.len() && (#[trigger] rest[k]).0 <= j < rest[k].1;
                assert(spans[k + 1] == rest[k]);
            }
        }
    }
}

/// The words of a line are exactly its maximal runs of non-blank characters:
/// each span is such a run, the spans come in the order of the line without
/// touching, and every non-blank character lies in one of them.
pub proof fn lemma_words_are_maximal_runs(line: Seq<char>)
    ensures
        words(line).len() == word_spans(line, 0).len(),
        forall|k: int|
            0 <= k < word_spans(line, 0).len() ==> is_word(
                line,
                (#[trigger] word_spans(line, 0)[k]).0,
                word_spans(line, 0)[k].1,
            ) && words(line)[k] == line.subrange(word_spans(line, 0)[k].0, word_spans(line, 0)[k].1),
        forall|k: int, l: int|
            0 <= k < l < word_spans(line, 0).len() ==> (#[trigger] word_spans(line, 0)[k]).1 < (
            #[trigger] word_spans(line, 0)[l]).0,
        forall|j: int|
            0 <= j < line.len() && !is_blank(#[trigger] line[j]) ==> exists|k: int|
                0 <= k < word_spans(line, 0).len() && (#[trigger] word_spans(line, 0)[k]).0 <= j
                    < word_spans(line, 0)[k].1,
{
    lemma_word_spans_from(line, 0);
}

/// Whether `c` separates words.
pub fn is_blank_char(c: char) -> (r: bool)
    ensures
        r == is_blank(c),
{
    c == ' ' || c == '\t' || c == '\n' || c == '\r'
}

/// The characters of `line`, one by one.
fn chars_of(line: &str) -> (r: Vec<char>)
    ensures
        r@ == line@,
{
    let mut out: Vec<char> = Vec::new();
    for c in it: line.chars()
        invariant
            out@ == it.seq().take(it.index() as int),
            it.seq() == line@,
    {
        out.push(c);
    }
    out
}

/// Splits `line` into its words.
pub fn tokenize<'a>(line: &'a str) -> (r: Vec<&'a str>)
    ensures
        texts(r@) == words(line@),
{
    let chars: Vec<char> = chars_of(line);
    let n: usize = chars.len();
    let mut out: Vec<&'a str> = Vec::new();
    let mut i: usize = 0;
    let ghost mut done: Seq<(int, int)> = Seq::empty();
    while i < n
        invariant
            chars@ == line@,
            n == line@.len(),
            i <= n,
            done + word_spans(line@, i as int) == word_spans(line@, 0),
            texts(out@) == span_texts(line@, done),
        decreases n - i,
    {
        if is_blank_char(chars[i]) {
            i += 1;
        } else {
            let start: usize = i;
            while i < n && !is_blank_char(chars[i])
                invariant
                    chars@ == line@,
                    n == line@.len(),
                    start <= i <= n,
                    run_end(line@, i as int) == run_end(line@, start as int),
                decreases n - i,
            {
                i += 1;
            }
            let word: &'a str = line.substring_char(start, i);
            proof {
                let rest = word_spans(line@, i as int);
                assert(done.push((start as int, i as int)) + rest =~= done + word_spans(
                    line@,
                    start as int,
                ));
                assert(texts(out@.push(word)) =~= span_texts(
                    line@,
                    done.push((start as int, i as int)),
                )) by {
                    let grown = done.push((start as int, i as int));
                    assert(texts(out@).len() == out@.len());
                    assert forall|k: int| 0 <= k < grown.len() implies texts(out@.push(word))[k]
                        == span_texts(line@, grown)[k] by {
                        if k < done.len() {
                            assert(texts(out@)[k] == span_texts(line@, done)[k]);
                        }
                    }
                }
                done = done.push((start as int, i as int));
            }
            out.push(word);
        }
    }
    out
}

/// Whether two strings hold the same characters.
pub fn same_text(a: &str, b: &str) -> (r: bool)
    ensures
        r == (a@ == b@),
{
    let x: &[u8] = a.as_bytes();
    let y: &[u8] = b.as_bytes();
    proof {
        vstd::utf8::encode_utf8_decode_utf8(a@);
        vstd::utf8::encode_utf8_decode_utf8(b@);
    }
    if x.len() != y.len() {
        return false;
    }
    let mut i: usize = 0;
    while i < x.len()
        invariant
            x@.len() == y@.len(),
            i <= x@.len(),
            x@ == a.spec_bytes(),
            y@ == b.spec_bytes(),
            forall|k: int| 0 <= k < i ==> x@[k] == y@[k],
        decreases x@.len() - i,
    {
        if x[i] != y[i] {
            return false;
        }
        i += 1;
    }
    assert(x@ =~= y@);
    true
}

/// The usage text of `echo` under the command name `name`.
pub open spec fn echo_usage(name: Seq<char>) -> Seq<char> {
    "Usage: "@ + name + " <message>\n"@
        + "Note: to echo multiple words wrap the message in \"\".\n"@
}

/// What `echo` writes for the argument vector `args` (command name first).
pub open spec fn echo_output(args: Seq<Seq<char>>) -> Seq<char>
    recommends
        args.len() >= 1,
{
    if args.len() == 2 {
        args[1] + "\n"@
    } else {
        echo_usage(args[0])
    }
}

/// Writes the single argument followed by a line terminator; with no
/// argument or more than one, writes the usage text instead. `args` begins
/// with the name under which the command was called.
pub fn echo(w: &mut String, args: &[&str])
    requires
        args@.len() >= 1,
    ensures
        final(w)@ == old(w)@ + echo_output(texts(args@)),
{
    if args.len() == 2 {
        w.append(args[1]);
        w.append("\n");
    } else {
        w.append("Usage: ");
        w.append(args[0]);
        w.append(" <message>\n");
        w.append("Note: to echo multiple words wrap the message in \"\".\n");
    }
}

/// What runs when a command is called.
#[derive(Clone, Copy, Debug, PartialEq, Eq, Structural)]
pub enum Handler {
    /// The built-in `echo`.
    Echo,
    /// A handler that lives with the caller of the shell; the number tells
    /// the caller which one.
    External(u32),
}

/// What a `Command` stands for.
pub ghost struct CommandView {
    pub name: Seq<char>,
    pub description: Seq<char>,
    pub handler: Handler,
}

/// A command: the word that calls it, a description for the operator, and
/// its handler.
#[derive(Debug)]
pub struct Command {
    name: String,
    description: String,
    handler: Handler,
}

impl View for Command {
    type V = CommandView;

    closed spec fn view(&self) -> CommandView {
        CommandView { name: self.name@, description: self.description@, handler: self.handler }
    }
}

impl Command {
    /// The word that calls the command.
    pub fn name(&self) -> (r: &str)
        ensures
            r@ == self@.name,
    {
        self.name.as_str()
    }

    /// The description for the operator.
    pub fn description(&self) -> (r: &str)
        ensures
            r@ == self@.description,
    {
        self.description.as_str()
    }

    /// The handler.
    pub fn handler(&self) -> (r: Handler)
        ensures
            r == self@.handler,
    {
        self.handler
    }
}

/// The position of the first command of `table`, at or after `from`, whose
/// name is exactly `name`.
pub open spec fn find_from(table: Seq<CommandView>, name: Seq<char>, from: int) -> Option<int>
    decreases table.len() - from,
{
    if !(0 <= from < table.len()) {
        None
    } else if table[from].name == name {
        Some(from)
    } else {
        find_from(table, name, from + 1)
    }
}

/// The position of the first command of `table` whose name is exactly `name`.
pub open spec fn find(table: Seq<CommandView>, name: Seq<char>) -> Option<int> {
    find_from(table, name, 0)
}

/// `find_from` gives the first position at or after `from` that bears the
/// name, and `None` exactly when no position from there on bears it.
pub proof fn lemma_find_from(table: Seq<CommandView>, name: Seq<char>, from: int)
    requires
        0 <= from,
    ensures
        find_from(table, name, from) is None <==> forall|i: int|
            from <= i < table.len() ==> (#[trigger] table[i]).name != name,
        find_from(table, name, from) matches Some(at) ==> from <= at < table.len()
            && table[at].name == name && forall|i: int|
            from <= i < at ==> (#[trigger] table[i]).name != name,
    decreases table.len() - from,
{
    if from < table.len() && table[from].name != name {
        lemma_find_from(table, name, from + 1);
    }
}

/// The commands of a shell, in the order in which they were registered.
#[derive(Debug)]
pub struct CommandTable {
    commands: Vec<Command>,
}

impl View for CommandTable {
    type V = Seq<CommandView>;

    closed spec fn view(&self) -> Seq<CommandView> {
        self.commands@.map_values(|c: Command| c@)
    }
}

/// The text written when no command bears the name.
pub open spec fn not_found_text(name: Seq<char>) -> Seq<char> {
    "shell: command not found: "@ + name + "\n"@
}

/// What became of a line.
#[derive(Debug, PartialEq, Eq)]
pub enum Outcome<'a> {
    /// The line held no word.
    Ignored,
    /// No command bears the name of the first word.
    NotFound,
    /// The command at this position ran and has returned.
    Ran { command: usize },
    /// The command at this position has a handler outside the shell: the
    /// caller runs the handler `token` on `args`.
    Deferred { command: usize, token: u32, args: Vec<&'a str> },
}

/// What an `Outcome` stands for.
pub ghost enum OutcomeView {
    Ignored,
    NotFound,
    Ran { command: int },
    Deferred { command: int, token: u32, args: Seq<Seq<char>> },
}

impl<'a> View for Outcome<'a> {
    type V = OutcomeView;

    open spec fn view(&self) -> OutcomeView {
        match *self {
            Outcome::Ignored => OutcomeView::Ignored,
            Outcome::NotFound => OutcomeView::NotFound,
            Outcome::Ran { command } => OutcomeView::Ran { command: command as int },
            Outcome::Deferred { command, token, args } => OutcomeView::Deferred {
                command: command as int,
                token,
                args: texts(args@),
            },
        }
    }
}

/// What becomes of `line` under the commands of `table`.
pub open spec fn outcome_of(table: Seq<CommandView>, line: Seq<char>) -> OutcomeView {
    let args = words(line);
    if args.len() == 0 {
        OutcomeView::Ignored
    } else {
        match find(table, args[0]) {
            None => OutcomeView::NotFound,
            Some(at) => match table[at].handler {
                Handler::Echo => OutcomeView::Ran { command: at },
                Handler::External(token) => OutcomeView::Deferred { command: at, token, args },
            },
        }
    }
}

/// What the shell itself writes for `line` under the commands of `table`.
pub open spec fn output_of(table: Seq<CommandView>, line: Seq<char>) -> Seq<char> {
    let args = words(line);
    if args.len() == 0 {
        Seq::empty()
    } else {
        match find(table, args[0]) {
            None => not_found_text(args[0]),
            Some(at) => match table[at].handler {
                Handler::Echo => echo_output(args),
                Handler::External(_) => Seq::empty(),
            },
        }
    }
}

impl CommandTable {
    /// A table without commands.
    pub fn new() -> (r: CommandTable)
        ensures
            r@ == Seq::<CommandView>::empty(),
    {
        CommandTable { commands: Vec::new() }
    }

    /// Adds a command behind those already there.
    pub fn register(&mut self, name: &str, description: &str, handler: Handler)
        ensures
            final(self)@ == old(self)@.push(
                CommandView { name: name@, description: description@, handler },
            ),
    {
        let command = Command {
            name: String::from_str(name),
            description: String::from_str(description),
            handler,
        };
        self.commands.push(command);
    }

    /// The number of commands.
    pub fn len(&self) -> (n: usize)
        ensures
            n == self@.len(),
    {
        self.commands.len()
    }

    /// The command at `position`, if there is one.
    pub fn get(&self, position: usize) -> (r: Option<&Command>)
        ensures
            position < self@.len() ==> r is Some && r->0@ == self@[position as int],
            position >= self@.len() ==> r is None,
    {
        if position < self.commands.len() {
            Some(&self.commands[position])
        } else {
            None
        }
    }

    /// The position of the first command whose name is exactly `name`, letter
    /// case included; `None` where no command bears the name.
    pub fn lookup(&self, name: &str) -> (r: Option<usize>)
        ensures
            r is Some <==> find(self@, name@) is Some,
            r is Some ==> r->0 == find(self@, name@)->0,
            r is None <==> forall|i: int| 0 <= i < self@.len() ==> (#[trigger] self@[i]).name != name@,
            r matches Some(at) ==> at < self@.len() && self@[at as int].name == name@ && forall|
                i: int,
            | 0 <= i < at ==> (#[trigger] self@[i]).name != name@,
    {
        proof {
            lemma_find_from(self@, name@, 0);
        }
        let mut i: usize = 0;
        while i < self.commands.len()
            invariant
                i <= self.commands@.len(),
                find_from(self@, name@, i as int) == find(self@, name@),
            decreases self.commands@.len() - i,
        {
            if same_text(self.commands[i].name.as_str(), name) {
                proof {
                    lemma_find_from(self@, name@, 0);
                }
                return Some(i);
            }
            i += 1;
        }
        None
    }

    /// Handles one line: splits it into words, finds the command that the
    /// first word names, and runs it. An empty line is passed over in
    /// silence; an unknown name is reported on `out`; a built-in command
    /// writes to `out`; a command with a handler outside the shell is handed
    /// back to the caller with its arguments.
    pub fn process_line<'a>(&self, line: &'a str, out: &mut String) -> (r: Outcome<'a>)
        ensures
            r@ == outcome_of(self@, line@),
            final(out)@ == old(out)@ + output_of(self@, line@),
    {
        let args: Vec<&'a str> = tokenize(line);
        if args.len() == 0 {
            return Outcome::Ignored;
        }
        match self.lookup(args[0]) {
            None => {
                out.append("shell: command not found: ");
                out.append(args[0]);
                out.append("\n");
                Outcome::NotFound
            },
            Some(at) => {
                match self.commands[at].handler {
                    Handler::Echo => {
                        echo(out, args.as_slice());
                        Outcome::Ran { command: at }
                    },
                    Handler::External(token) => {
                        Outcome::Deferred { command: at, token, args }
                    },
                }
            },
        }
    }
}

/// Where the shell stands in its cycle.
#[derive(Clone, Copy, Debug, PartialEq, Eq, Structural)]
pub enum ShellState {
    /// The shell waits for the next line of input.
    WaitingForLine,
    /// A handler outside the shell is running.
    Dispatching,
    /// The line is dealt with; what was written waits to reach the console.
    AwaitingNextLine,
}

/// What happened outside the shell.
#[derive(Clone, Copy, Debug, PartialEq, Eq)]
pub enum ShellEvent<'a> {
    /// A full line of input arrived.
    Line(&'a str),
    /// The handler that the shell asked for has returned.
    HandlerReturned,
    /// What the shell wrote has reached the console.
    OutputWritten,
}

/// What a `ShellEvent` stands for.
pub ghost enum ShellEventView {
    Line(Seq<char>),
    HandlerReturned,
    OutputWritten,
}

impl<'a> View for ShellEvent<'a> {
    type V = ShellEventView;

    open spec fn view(&self) -> ShellEventView {
        match *self {
            ShellEvent::Line(line) => ShellEventView::Line(line@),
            ShellEvent::HandlerReturned => ShellEventView::HandlerReturned,
            ShellEvent::OutputWritten => ShellEventView::OutputWritten,
        }
    }
}

/// What the caller of the shell does next.
#[derive(Debug, PartialEq, Eq)]
pub enum ShellAction<'a> {
    /// Wait for a full line of input and hand it over as `Line`.
    ReadLine,
    /// Run the handler `token` of the command at position `command` on
    /// `args`, then report `HandlerReturned`.
    Run { command: usize, token: u32, args: Vec<&'a str> },
    /// Go on waiting for the handler that is running.
    AwaitHandler,
    /// Bring what was written to the console, then report `OutputWritten`.
    WriteOutput,
}

/// What a `ShellAction` stands for.
pub ghost enum ShellActionView {
    ReadLine,
    Run { command: int, token: u32, args: Seq<Seq<char>> },
    AwaitHandler,
    WriteOutput,
}

impl<'a> View for ShellAction<'a> {
    type V = ShellActionView;

    open spec fn view(&self) -> ShellActionView {
        match *self {
            ShellAction::ReadLine => ShellActionView::ReadLine,
            ShellAction::Run { command, token, args } => ShellActionView::Run {
                command: command as int,
                token,
                args: texts(args@),
            },
            ShellAction::AwaitHandler => ShellActionView::AwaitHandler,
            ShellAction::WriteOutput => ShellActionView::WriteOutput,
        }
    }
}

/// The state after `event` arrives in `state`. An event that the state does
/// not wait for leaves the state as it is.
pub open spec fn next_state(
    table: Seq<CommandView>,
    state: ShellState,
    event: ShellEventView,
) -> ShellState {
    match (state, event) {
        (ShellState::WaitingForLine, ShellEventView::Line(line)) => {
            if outcome_of(table, line) is Deferred {
                ShellState::Dispatching
            } else {
                ShellState::AwaitingNextLine
            }
        },
        (ShellState::Dispatching, ShellEventView::HandlerReturned) => ShellState::AwaitingNextLine,
        (ShellState::AwaitingNextLine, ShellEventView::OutputWritten) => ShellState::WaitingForLine,
        _ => state,
    }
}

/// What the caller does after `event` arrived in `state`.
pub open spec fn next_action(
    table: Seq<CommandView>,
    state: ShellState,
    event: ShellEventView,
) -> ShellActionView {
    match (state, event) {
        (ShellState::WaitingForLine, ShellEventView::Line(line)) => {
            match outcome_of(table, line) {
                OutcomeView::Deferred { command, token, args } => ShellActionView::Run {
                    command,
                    token,
                    args,
                },
                _ => ShellActionView::WriteOutput,
            }
        },
        (ShellState::Dispatching, ShellEventView::HandlerReturned) => ShellActionView::WriteOutput,
        (ShellState::AwaitingNextLine, ShellEventView::OutputWritten) => ShellActionView::ReadLine,
        (ShellState::WaitingForLine, _) => ShellActionView::ReadLine,
        (ShellState::Dispatching, _) => ShellActionView::AwaitHandler,
        (ShellState::AwaitingNextLine, _) => ShellActionView::WriteOutput,
    }
}

/// What the shell writes when `event` arrives in `state`.
pub open spec fn step_output(
    table: Seq<CommandView>,
    state: ShellState,
    event: ShellEventView,
) -> Seq<char> {
    match (state, event) {
        (ShellState::WaitingForLine, ShellEventView::Line(line)) => output_of(table, line),
        _ => Seq::empty(),
    }
}

/// A shell: its commands and its place in the cycle of reading a line,
/// running a command and writing what the command said.
#[derive(Debug)]
pub struct Shell {
    table: CommandTable,
    state: ShellState,
}

impl Shell {
    /// The commands of the shell.
    pub closed spec fn commands(&self) -> Seq<CommandView> {
        self.table@
    }

    /// Where the shell stands.
    pub closed spec fn current(&self) -> ShellState {
        self.state
    }

    /// A shell over `table` that waits for its first line.
    pub fn new(table: CommandTable) -> (r: Shell)
        ensures
            r.commands() == table@,
            r.current() == ShellState::WaitingForLine,
    {
        Shell { table, state: ShellState::WaitingForLine }
    }

    /// Where the shell stands.
    pub fn state(&self) -> (r: ShellState)
        ensures
            r == self.current(),
    {
        self.state
    }

    /// The commands of the shell.
    pub fn table(&self) -> (r: &CommandTable)
        ensures
            r@ == self.commands(),
    {
        &self.table
    }

    /// Takes one event and says what the caller does next. Every event is
    /// accepted in every state, and no state is final: a line is handled
    /// when the shell waits for one, and an event out of turn changes
    /// nothing. What the shell has to say is appended to `out`.
    pub fn step<'a>(&mut self, event: ShellEvent<'a>, out: &mut String) -> (r: ShellAction<'a>)
        ensures
            final(self).commands() == old(self).commands(),
            final(self).current() == next_state(old(self).commands(), old(self).current(), event@),
            r@ == next_action(old(self).commands(), old(self).current(), event@),
            final(out)@ == old(out)@ + step_output(
                old(self).commands(),
                old(self).current(),
                event@,
            ),
    {
        match (self.state, event) {
            (ShellState::WaitingForLine, ShellEvent::Line(line)) => {
                match self.table.process_line(line, out) {
                    Outcome::Deferred { command, token, args } => {
                        self.state = ShellState::Dispatching;
                        ShellAction::Run { command, token, args }
                    },
                    _ => {
                        self.state = ShellState::AwaitingNextLine;
                        ShellAction::WriteOutput
                    },
                }
            },
            (ShellState::Dispatching, ShellEvent::HandlerReturned) => {
                self.state = ShellState::AwaitingNextLine;
                ShellAction::WriteOutput
            },
            (ShellState::AwaitingNextLine, ShellEvent::OutputWritten) => {
                self.state = ShellState::WaitingForLine;
                ShellAction::ReadLine
            },
            (ShellState::WaitingForLine, _) => {
                ShellAction::ReadLine
            },
            (ShellState::Dispatching, _) => {
                ShellAction::AwaitHandler
            },
            (ShellState::AwaitingNextLine, _) => {
                ShellAction::WriteOutput
            },
        }
    }
}

/// The event that a state waits for, when the line at hand is `line`.
pub open spec fn awaited(state: ShellState, line: Seq<char>) -> ShellEventView {
    match state {
        ShellState::WaitingForLine => ShellEventView::Line(line),
        ShellState::Dispatching => ShellEventView::HandlerReturned,
        ShellState::AwaitingNextLine => ShellEventView::OutputWritten,
    }
}

/// No state is final, and no line ends the shell: from every state the
/// awaited event leads to another state, and whatever a line holds, the
/// shell waits for the next line again after at most three awaited events.
pub proof fn lemma_shell_keeps_running(table: Seq<CommandView>, state: ShellState, line: Seq<char>)
    ensures
        next_state(table, state, awaited(state, line)) != state,
        ({
            let first = next_state(table, ShellState::WaitingForLine, ShellEventView::Line(line));
            let second = next_state(table, first, awaited(first, line));
            second == ShellState::WaitingForLine || next_state(
                table,
                second,
                awaited(second, line),
            ) == ShellState::WaitingForLine
        }),
{
}

/// A line whose first word names no command is answered with the text that
/// says so, and leaves the shell one written output away from waiting for
/// the next line.
pub proof fn lemma_unknown_command(table: Seq<CommandView>, line: Seq<char>)
    requires
        words(line).len() > 0,
        find(table, words(line)[0]) is None,
    ensures
        step_output(table, ShellState::WaitingForLine, ShellEventView::Line(line))
            == not_found_text(words(line)[0]),
        next_state(table, ShellState::WaitingForLine, ShellEventView::Line(line))
            == ShellState::AwaitingNextLine,
        next_state(table, ShellState::AwaitingNextLine, ShellEventView::OutputWritten)
            == ShellState::WaitingForLine,
{
}

} // verus!
