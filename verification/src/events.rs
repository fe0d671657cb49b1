//! Events of package creation and the handlers they are dispatched to.

use std::io::Write;

use vstd::prelude::*;
use vstd::string::*;

use crate::integration::strs;
use crate::text::{append_str, join};

verus! {

/// Something that happened while creating a package.
#[derive(Debug, Clone)]
pub enum PackageEvent {
    Created { name: String, path: String },
    WorkspaceCreated { root: String, patterns: Vec<String> },
    GitInitialized { path: String },
    Error { message: String },
}

/// Something that reacts to package events.
pub trait PackageEventHandler {
    fn handle_event(&self, event: &PackageEvent);
}

/// Pushing onto a sequence adds one to its length. (Stated for any element
/// type, so that it reaches sequences of handlers, whose elements are trait
/// objects.)
proof fn lemma_push_len<A>(s: Seq<A>, a: A)
    ensures
        s.push(a).len() == s.len() + 1,
{
}

/// Hands each event to every handler, in the order they were added.
pub struct EventDispatcher {
    handlers: Vec<Box<dyn PackageEventHandler>>,
}

impl EventDispatcher {
    /// How many handlers the dispatcher holds.
    pub closed spec fn handler_count(&self) -> nat {
        self.handlers@.len()
    }

    /// A dispatcher with no handlers.
    pub fn new() -> (r: Self)
        ensures
            r.handler_count() == 0,
    {
        EventDispatcher { handlers: Vec::new() }
    }

    /// Adds a handler after the others.
    pub fn add_handler(&mut self, handler: Box<dyn PackageEventHandler>)
        ensures
            final(self).handler_count() == old(self).handler_count() + 1,
    {
        let ghost before = self.handlers@;
        let ghost added = handler;
        self.handlers.push(handler);
        proof {
            lemma_push_len(before, added);
        }
    }

    /// Hands `event` to every handler, in the order they were added.
    pub fn dispatch(&self, event: &PackageEvent) {
        let mut i: usize = 0;
        while i < self.handlers.len()
            invariant
                i <= self.handlers@.len(),
            decreases self.handlers@.len() - i,
        {
            self.handlers[i].handle_event(event);
            i = i + 1;
        }
    }
}

/// The debug text of a list of strings: each quoted, separated by `, `,
/// in brackets.
pub open spec fn quoted_list(items: Seq<Seq<char>>) -> Seq<char> {
    "["@ + join(Seq::new(items.len(), |i: int| "\""@ + items[i] + "\""@), ", "@) + "]"@
}

/// The line the console shows for an event, and whether it goes to the
/// error stream.
pub open spec fn console_line(event: PackageEvent) -> (Seq<char>, bool) {
    match event {
        PackageEvent::Created { name, path } => ("Created package '"@ + name@ + "' at "@ + path@, false),
        PackageEvent::WorkspaceCreated { root, patterns } => (
            "Created workspace at "@ + root@ + " with patterns: "@ + quoted_list(strs(patterns@)),
            false,
        ),
        PackageEvent::GitInitialized { path } => ("Initialized Git repository at "@ + path@, false),
        PackageEvent::Error { message } => ("Error: "@ + message@, true),
    }
}

/// Writes `line` and a line break to standard output with `writeln!`;
/// a failure to write is ignored (where `println!` would panic).
#[verifier::external_body]
fn write_stdout_line(line: &str) {
    let _ = writeln!(std::io::stdout(), "{}", line);
}

/// Writes `line` and a line break to standard error with `writeln!`;
/// a failure to write is ignored (where `eprintln!` would panic).
#[verifier::external_body]
fn write_stderr_line(line: &str) {
    let _ = writeln!(std::io::stderr(), "{}", line);
}

/// Shows events on the console.
#[derive(Debug, Clone, Copy)]
pub struct ConsoleEventHandler;

fn quoted_list_exec(items: &Vec<String>) -> (r: String)
    ensures
        r@ == quoted_list(strs(items@)),
{
    let ghost q = Seq::new(strs(items@).len(), |i: int| "\""@ + strs(items@)[i] + "\""@);
    let mut body = String::new();
    let mut i: usize = 0;
    assert(q.subrange(0, 0) =~= Seq::<Seq<char>>::empty());
    while i < items.len()
        invariant
            i <= items@.len(),
            q.len() == items@.len(),
            q == Seq::new(strs(items@).len(), |i: int| "\""@ + strs(items@)[i] + "\""@),
            body@ == join(q.subrange(0, i as int), ", "@),
        decreases items@.len() - i,
    {
        let ghost done = q.subrange(0, i as int);
        let mut piece = String::from_str("\"");
        append_str(&mut piece, items[i].as_str());
        append_str(&mut piece, "\"");
        assert(piece@ == q[i as int]);
        if i > 0 {
            append_str(&mut body, ", ");
            proof {
                crate::text::lemma_join_push(done, piece@, ", "@);
            }
        } else {
            assert(q.subrange(0, 1) =~= seq![piece@]);
        }
        append_str(&mut body, piece.as_str());
        assert(q.subrange(0, i + 1) =~= done.push(q[i as int]));
        i = i + 1;
    }
    assert(q.subrange(0, items@.len() as int) =~= q);
    let mut r = String::from_str("[");
    append_str(&mut r, body.as_str());
    append_str(&mut r, "]");
    r
}

impl ConsoleEventHandler {
    /// The line shown for `event`, and whether it is an error.
    pub fn line_for(&self, event: &PackageEvent) -> (r: (String, bool))
        ensures
            (r.0@, r.1) == console_line(*event),
    {
        match event {
            PackageEvent::Created { name, path } => {
                let mut m = String::from_str("Created package '");
                append_str(&mut m, name.as_str());
                append_str(&mut m, "' at ");
                append_str(&mut m, path.as_str());
                (m, false)
            },
            PackageEvent::WorkspaceCreated { root, patterns } => {
                let mut m = String::from_str("Created workspace at ");
                append_str(&mut m, root.as_str());
                append_str(&mut m, " with patterns: ");
                let list = quoted_list_exec(patterns);
                append_str(&mut m, list.as_str());
                (m, false)
            },
            PackageEvent::GitInitialized { path } => {
                let mut m = String::from_str("Initialized Git repository at ");
                append_str(&mut m, path.as_str());
                (m, false)
            },
            PackageEvent::Error { message } => {
                let mut m = String::from_str("Error: ");
                append_str(&mut m, message.as_str());
                (m, true)
            },
        }
    }
}

impl PackageEventHandler for ConsoleEventHandler {
    fn handle_event(&self, event: &PackageEvent) {
        let (line, to_stderr) = self.line_for(event);
        if to_stderr {
            write_stderr_line(line.as_str());
        } else {
            write_stdout_line(line.as_str());
        }
    }
}

} // verus!
