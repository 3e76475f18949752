//! The directives of a test script and how a record of the script is read
//! as one of them.
//!
//! A record carries a directive name, arguments that map a name to one or
//! more values, and a body of raw text.

use crate::catalog::{first_named, lemma_first_named};
use crate::text::{
    chars_of, decimal_u64, lemma_texts_push, parse_u64, replace, replaced, str_is, string_of, texts,
    trim, trimmed,
};
use vstd::prelude::*;

verus! {

/// One argument of a record: its name and its values.
pub type Argument = (String, Vec<String>);

/// What a record of the script asks for.
#[derive(Clone, Debug, PartialEq, Eq)]
pub enum Directive {
    /// Run the statements in a fresh session that ends with the directive.
    Sql { query: String },
    /// Run the statements again and again until all they return is true,
    /// hiding the progress of the named objects.
    WaitSql { exclude_uppers: Vec<String>, query: String },
    /// Run the statements in a new session that is stored under a name;
    /// their outcomes wait for an `await-sql`.
    AsyncSql { session: String, query: String },
    /// Cancel the session stored under the name.
    AsyncCancel { session: String },
    /// Give the outcomes of the session stored under the name, and end it.
    AwaitSql { session: String },
    /// Inject progress: each line of the body is a path and a timestamp.
    UpdateUpper { body: String },
    /// Move the logical clock forward.
    IncTimestamp { delta: u64 },
    /// Create a fixture file, or empty it, and write the content.
    CreateFile { name: String, content: String },
    /// Write the content at the end of a fixture file.
    AppendFile { name: String, content: String },
    /// Show the snapshot of the catalog.
    PrintCatalog,
}

/// The mathematical content of a [`Directive`].
pub enum DirectiveView {
    Sql { query: Seq<char> },
    WaitSql { exclude_uppers: Seq<Seq<char>>, query: Seq<char> },
    AsyncSql { session: Seq<char>, query: Seq<char> },
    AsyncCancel { session: Seq<char> },
    AwaitSql { session: Seq<char> },
    UpdateUpper { body: Seq<char> },
    IncTimestamp { delta: u64 },
    CreateFile { name: Seq<char>, content: Seq<char> },
    AppendFile { name: Seq<char>, content: Seq<char> },
    PrintCatalog,
}

impl View for Directive {
    type V = DirectiveView;

    open spec fn view(&self) -> DirectiveView {
        match *self {
            Directive::Sql { query } => DirectiveView::Sql { query: query@ },
            Directive::WaitSql { exclude_uppers, query } => DirectiveView::WaitSql {
                exclude_uppers: texts(exclude_uppers@),
                query: query@,
            },
            Directive::AsyncSql { session, query } => DirectiveView::AsyncSql {
                session: session@,
                query: query@,
            },
            Directive::AsyncCancel { session } => DirectiveView::AsyncCancel { session: session@ },
            Directive::AwaitSql { session } => DirectiveView::AwaitSql { session: session@ },
            Directive::UpdateUpper { body } => DirectiveView::UpdateUpper { body: body@ },
            Directive::IncTimestamp { delta } => DirectiveView::IncTimestamp { delta },
            Directive::CreateFile { name, content } => DirectiveView::CreateFile {
                name: name@,
                content: content@,
            },
            Directive::AppendFile { name, content } => DirectiveView::AppendFile {
                name: name@,
                content: content@,
            },
            Directive::PrintCatalog => DirectiveView::PrintCatalog,
        }
    }
}

/// What a record lacks or has too much of.
#[derive(Clone, Copy, Debug, PartialEq, Eq)]
pub enum Violation {
    /// The argument `session` is missing or has no value.
    MissingSession,
    /// The argument `name` is missing or has no value.
    MissingName,
    /// The directive takes no body, and the record has one.
    UnexpectedBody,
    /// The body is no number.
    BadNumber,
    /// A statement answered with something else than rows where rows were
    /// required.
    ExpectedRows,
    /// The driver handed in an event that does not answer the action that
    /// it was given.
    UnexpectedEvent,
}

/// Why a record is no directive.
#[derive(Clone, Copy, Debug, PartialEq, Eq)]
pub enum DirectiveError {
    /// No directive has this name.
    UnrecognizedDirective,
    /// The record does not have what its directive requires.
    ProtocolViolation(Violation),
}

/// The token that stands in a body of statements for the directory of
/// fixture files.
pub open spec fn placeholder() -> Seq<char> {
    "<TEMP>"@
}

/// The names of the given arguments, in order.
pub open spec fn argument_names(args: Seq<Argument>) -> Seq<Seq<char>> {
    args.map_values(|a: Argument| a.0@)
}

/// The values of the first argument of the given name.
pub open spec fn argument(args: Seq<Argument>, name: Seq<char>) -> Option<Seq<Seq<char>>> {
    match first_named(argument_names(args), name) {
        Some(i) => Some(texts(args[i].1@)),
        None => None,
    }
}

/// The first value of the first argument of the given name.
pub open spec fn first_value(args: Seq<Argument>, name: Seq<char>) -> Option<Seq<char>> {
    match argument(args, name) {
        Some(values) => if values.len() > 0 {
            Some(values[0])
        } else {
            None
        },
        None => None,
    }
}

/// The directive that a record stands for.
///
/// In a body of statements each placeholder gives way to `temp_dir`. The
/// directives that name a session take the first value of `session`, those
/// that name a file the first value of `name`; `async-cancel` and
/// `await-sql` take no body. `wait-sql` hides the objects listed under
/// `exclude-uppers`, and none where the argument is absent. The body of
/// `inc-timestamp` is a number, with white space around it or not.
pub open spec fn directive_of(
    name: Seq<char>,
    args: Seq<Argument>,
    body: Seq<char>,
    temp_dir: Seq<char>,
) -> Result<DirectiveView, DirectiveError> {
    let query = replaced(body, placeholder(), temp_dir);
    let session = first_value(args, "session"@);
    let file = first_value(args, "name"@);
    if name == "sql"@ {
        Ok(DirectiveView::Sql { query })
    } else if name == "wait-sql"@ {
        Ok(
            DirectiveView::WaitSql {
                exclude_uppers: match argument(args, "exclude-uppers"@) {
                    Some(paths) => paths,
                    None => Seq::empty(),
                },
                query,
            },
        )
    } else if name == "async-sql"@ {
        match session {
            Some(session) => Ok(DirectiveView::AsyncSql { session, query }),
            None => Err(DirectiveError::ProtocolViolation(Violation::MissingSession)),
        }
    } else if name == "async-cancel"@ {
        match session {
            Some(session) => if body.len() == 0 {
                Ok(DirectiveView::AsyncCancel { session })
            } else {
                Err(DirectiveError::ProtocolViolation(Violation::UnexpectedBody))
            },
            None => Err(DirectiveError::ProtocolViolation(Violation::MissingSession)),
        }
    } else if name == "await-sql"@ {
        match session {
            Some(session) => if body.len() == 0 {
                Ok(DirectiveView::AwaitSql { session })
            } else {
                Err(DirectiveError::ProtocolViolation(Violation::UnexpectedBody))
            },
            None => Err(DirectiveError::ProtocolViolation(Violation::MissingSession)),
        }
    } else if name == "update-upper"@ {
        Ok(DirectiveView::UpdateUpper { body })
    } else if name == "inc-timestamp"@ {
        match decimal_u64(trimmed(body)) {
            Some(delta) => Ok(DirectiveView::IncTimestamp { delta }),
            None => Err(DirectiveError::ProtocolViolation(Violation::BadNumber)),
        }
    } else if name == "create-file"@ {
        match file {
            Some(name) => Ok(DirectiveView::CreateFile { name, content: body }),
            None => Err(DirectiveError::ProtocolViolation(Violation::MissingName)),
        }
    } else if name == "append-file"@ {
        match file {
            Some(name) => Ok(DirectiveView::AppendFile { name, content: body }),
            None => Err(DirectiveError::ProtocolViolation(Violation::MissingName)),
        }
    } else if name == "print-catalog"@ {
        Ok(DirectiveView::PrintCatalog)
    } else {
        Err(DirectiveError::UnrecognizedDirective)
    }
}

/// Puts the directory of fixture files in the place of each placeholder.
pub(crate) fn rewrite_query(query: &str, temp_dir: &str) -> (rewritten: String)
    ensures
        rewritten@ == replaced(query@, placeholder(), temp_dir@),
{
    proof {
        reveal_strlit("<TEMP>");
    }
    let text = chars_of(query);
    let from = chars_of("<TEMP>");
    let to = chars_of(temp_dir);
    let out = replace(&text, &from, &to);
    string_of(&out)
}

/// Finds the values of the first argument of the given name.
fn find_argument<'a>(args: &'a Vec<Argument>, name: &str) -> (found: Option<&'a Vec<String>>)
    ensures
        match found {
            Some(values) => argument(args@, name@) == Some(texts(values@)),
            None => argument(args@, name@) is None,
        },
{
    let mut i: usize = 0;
    while i < args.len()
        invariant
            i <= args.len(),
            forall|j: int| 0 <= j < i ==> argument_names(args@)[j] != name@,
        decreases args.len() - i,
    {
        if str_is(args[i].0.as_str(), name) {
            proof {
                assert(argument_names(args@)[i as int] == name@);
                lemma_first_named(argument_names(args@), name@);
            }
            return Some(&args[i].1);
        }
        i += 1;
    }
    proof {
        lemma_first_named(argument_names(args@), name@);
    }
    None
}

/// Finds the first value of the first argument of the given name.
fn find_first_value(args: &Vec<Argument>, name: &str) -> (found: Option<String>)
    ensures
        match found {
            Some(value) => first_value(args@, name@) == Some(value@),
            None => first_value(args@, name@) is None,
        },
{
    match find_argument(args, name) {
        Some(values) => if values.len() > 0 {
            Some(values[0].clone())
        } else {
            None
        },
        None => None,
    }
}

fn copy_strings(strings: &Vec<String>) -> (copy: Vec<String>)
    ensures
        texts(copy@) == texts(strings@),
{
    let mut copy: Vec<String> = Vec::new();
    let mut i: usize = 0;
    while i < strings.len()
        invariant
            i <= strings.len(),
            texts(copy@) =~= texts(strings@.take(i as int)),
        decreases strings.len() - i,
    {
        let s = strings[i].clone();
        proof {
            lemma_texts_push(copy@, s);
            assert(strings@.take(i + 1) == strings@.take(i as int).push(strings[i as int]));
        }
        copy.push(s);
        i += 1;
    }
    proof {
        assert(strings@.take(strings@.len() as int) == strings@);
    }
    copy
}

/// Reads a record of the script as a directive.
pub(crate) fn read_directive(
    name: &str,
    args: &Vec<Argument>,
    body: &str,
    temp_dir: &str,
) -> (read:
    Result<Directive, DirectiveError>)
    ensures
        match read {
            Ok(directive) => directive_of(name@, args@, body@, temp_dir@) == Ok::<
                DirectiveView,
                DirectiveError,
            >(directive@),
            Err(e) => directive_of(name@, args@, body@, temp_dir@) == Err::<
                DirectiveView,
                DirectiveError,
            >(e),
        },
{
    if str_is(name, "sql") {
        Ok(Directive::Sql { query: rewrite_query(body, temp_dir) })
    } else if str_is(name, "wait-sql") {
        let exclude_uppers = match find_argument(args, "exclude-uppers") {
            Some(paths) => copy_strings(paths),
            None => Vec::new(),
        };
        proof {
            assert(texts(Seq::<String>::empty()) =~= Seq::<Seq<char>>::empty());
        }
        Ok(Directive::WaitSql { exclude_uppers, query: rewrite_query(body, temp_dir) })
    } else if str_is(name, "async-sql") {
        match find_first_value(args, "session") {
            Some(session) => Ok(
                Directive::AsyncSql { session, query: rewrite_query(body, temp_dir) },
            ),
            None => Err(DirectiveError::ProtocolViolation(Violation::MissingSession)),
        }
    } else if str_is(name, "async-cancel") {
        match find_first_value(args, "session") {
            Some(session) => if body.unicode_len() == 0 {
                Ok(Directive::AsyncCancel { session })
            } else {
                Err(DirectiveError::ProtocolViolation(Violation::UnexpectedBody))
            },
            None => Err(DirectiveError::ProtocolViolation(Violation::MissingSession)),
        }
    } else if str_is(name, "await-sql") {
        match find_first_value(args, "session") {
            Some(session) => if body.unicode_len() == 0 {
                Ok(Directive::AwaitSql { session })
            } else {
                Err(DirectiveError::ProtocolViolation(Violation::UnexpectedBody))
            },
            None => Err(DirectiveError::ProtocolViolation(Violation::MissingSession)),
        }
    } else if str_is(name, "update-upper") {
        Ok(Directive::UpdateUpper { body: body.to_owned() })
    } else if str_is(name, "inc-timestamp") {
        let text = chars_of(body);
        match parse_u64(&trim(&text)) {
            Some(delta) => Ok(Directive::IncTimestamp { delta }),
            None => Err(DirectiveError::ProtocolViolation(Violation::BadNumber)),
        }
    } else if str_is(name, "create-file") {
        match find_first_value(args, "name") {
            Some(file) => Ok(Directive::CreateFile { name: file, content: body.to_owned() }),
            None => Err(DirectiveError::ProtocolViolation(Violation::MissingName)),
        }
    } else if str_is(name, "append-file") {
        match find_first_value(args, "name") {
            Some(file) => Ok(Directive::AppendFile { name: file, content: body.to_owned() }),
            None => Err(DirectiveError::ProtocolViolation(Violation::MissingName)),
        }
    } else if str_is(name, "print-catalog") {
        Ok(Directive::PrintCatalog)
    } else {
        Err(DirectiveError::UnrecognizedDirective)
    }
}

} // verus!
