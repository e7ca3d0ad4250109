use vstd::prelude::*;

use crate::greeting::{greet, greeting_text};

verus! {

/// The native operation that a registered command runs.
#[derive(Clone, Copy, Debug, PartialEq, Eq, Structural)]
pub enum Handler {
    Greet,
    ReadFileContent,
}

/// One argument value sent with an invocation.
#[derive(Debug)]
pub enum ArgValue {
    Text(String),
    /// A value of any shape other than a string.
    Other,
}

/// What the native side does to answer a successfully decoded invocation.
#[derive(Debug)]
pub enum Action {
    /// The answer is complete: send this text back.
    Respond(String),
    /// Read the file at this path and send back the read command's response.
    ReadFile(String),
}

/// Why an invocation was rejected before any handler ran.
#[derive(Debug)]
pub enum DispatchError {
    /// No command is registered under this name.
    UnknownCommand(String),
    /// The arguments lack a text value under this key.
    InvalidArguments(String),
}

/// Why a registration was refused.
#[derive(Debug)]
pub enum RegisterError {
    /// A command is already registered under this name.
    DuplicateCommand(String),
}

/// The name under which the greeting command is registered.
pub open spec fn greet_command() -> Seq<char> {
    seq!['g', 'r', 'e', 'e', 't']
}

/// The name under which the file reading command is registered.
pub open spec fn read_file_command() -> Seq<char> {
    seq![
        'r', 'e', 'a', 'd', '_', 'f', 'i', 'l', 'e', '_', 'c', 'o', 'n', 't', 'e', 'n', 't',
    ]
}

/// The key of the one argument that a handler expects.
pub open spec fn arg_key(h: Handler) -> Seq<char> {
    match h {
        Handler::Greet => seq!['n', 'a', 'm', 'e'],
        Handler::ReadFileContent => seq!['f', 'i', 'l', 'e', '_', 'p', 'a', 't', 'h'],
    }
}

/// The text held under `key` by the first argument with that key, if that
/// argument is a string; `None` if there is no such argument or it is not text.
pub open spec fn text_arg(args: Seq<(String, ArgValue)>, key: Seq<char>) -> Option<Seq<char>>
    decreases args.len(),
{
    if args.len() == 0 {
        None
    } else if args[0].0@ == key {
        match args[0].1 {
            ArgValue::Text(s) => Some(s@),
            ArgValue::Other => None,
        }
    } else {
        text_arg(args.subrange(1, args.len() as int), key)
    }
}

/// Whether `a` is what handler `h` does with the decoded argument `arg`.
pub open spec fn is_action_for(a: Action, h: Handler, arg: Seq<char>) -> bool {
    match h {
        Handler::Greet => match a {
            Action::Respond(t) => t@ == greeting_text(arg),
            Action::ReadFile(_) => false,
        },
        Handler::ReadFileContent => match a {
            Action::ReadFile(p) => p@ == arg,
            Action::Respond(_) => false,
        },
    }
}

/// The table of name to handler that a list of registrations describes.
pub open spec fn table_of(entries: Seq<(String, Handler)>) -> Map<Seq<char>, Handler>
    decreases entries.len(),
{
    if entries.len() == 0 {
        Map::empty()
    } else {
        table_of(entries.drop_last()).insert(entries.last().0@, entries.last().1)
    }
}

/// No name occurs twice in a list of registrations.
pub open spec fn names_unique(entries: Seq<(String, Handler)>) -> bool {
    forall|i: int, j: int|
        0 <= i < j < entries.len() ==> #[trigger] entries[i].0@ != #[trigger] entries[j].0@
}

proof fn lemma_table_of(entries: Seq<(String, Handler)>)
    ensures
        forall|k: Seq<char>|
            #![trigger table_of(entries).contains_key(k)]
            table_of(entries).contains_key(k) <==> exists|j: int|
                0 <= j < entries.len() && #[trigger] entries[j].0@ == k,
        names_unique(entries) ==> forall|j: int|
            0 <= j < entries.len() ==> table_of(entries)[#[trigger] entries[j].0@]
                == entries[j].1,
    decreases entries.len(),
{
    if entries.len() > 0 {
        let rest = entries.drop_last();
        lemma_table_of(rest);
        assert forall|k: Seq<char>|
            table_of(entries).contains_key(k) implies exists|j: int|
                0 <= j < entries.len() && #[trigger] entries[j].0@ == k by {
            if k != entries.last().0@ {
                assert(table_of(rest).contains_key(k));
                let j = choose|j: int| 0 <= j < rest.len() && #[trigger] rest[j].0@ == k;
                assert(entries[j].0@ == k);
            } else {
                assert(entries[entries.len() - 1].0@ == k);
            }
        }
        assert forall|k: Seq<char>|
            (exists|j: int| 0 <= j < entries.len() && #[trigger] entries[j].0@ == k) implies
            table_of(entries).contains_key(k) by {
            let j = choose|j: int| 0 <= j < entries.len() && #[trigger] entries[j].0@ == k;
            if j < entries.len() - 1 {
                assert(rest[j].0@ == k);
                assert(table_of(rest).contains_key(k));
            }
        }
        if names_unique(entries) {
            assert forall|j: int| 0 <= j < entries.len() implies table_of(entries)[
                #[trigger] entries[j].0@] == entries[j].1 by {
                if j < entries.len() - 1 {
                    assert(rest[j] == entries[j]);
                    assert(entries[j].0@ != entries[entries.len() - 1].0@);
                }
            }
        }
    }
}

/// The set of commands that the user interface may invoke, each under a
/// unique name.
pub struct CommandRegistry {
    entries: Vec<(String, Handler)>,
}

impl View for CommandRegistry {
    type V = Map<Seq<char>, Handler>;

    closed spec fn view(&self) -> Map<Seq<char>, Handler> {
        table_of(self.entries@)
    }
}

impl CommandRegistry {
    /// Every name is registered at most once.
    pub closed spec fn wf(&self) -> bool {
        names_unique(self.entries@)
    }

    /// A registry with no commands.
    pub fn new() -> (r: CommandRegistry)
        ensures
            r.wf(),
            r@ == Map::<Seq<char>, Handler>::empty(),
    {
        CommandRegistry { entries: Vec::new() }
    }

    /// The position of the registration under `name`, if there is one.
    fn position_of(&self, name: &String) -> (r: Option<usize>)
        requires
            self.wf(),
        ensures
            match r {
                Some(i) => i < self.entries@.len() && self.entries@[i as int].0@ == name@,
                None => forall|j: int|
                    0 <= j < self.entries@.len() ==> #[trigger] self.entries@[j].0@ != name@,
            },
    {
        let mut i: usize = 0;
        while i < self.entries.len()
            invariant
                i <= self.entries@.len(),
                forall|j: int| 0 <= j < i ==> #[trigger] self.entries@[j].0@ != name@,
            decreases self.entries@.len() - i,
        {
            if self.entries[i].0 == *name {
                return Some(i);
            }
            i = i + 1;
        }
        None
    }

    /// The handler registered under `name`, if any.
    pub fn lookup(&self, name: &str) -> (r: Option<Handler>)
        requires
            self.wf(),
        ensures
            r == (if self@.contains_key(name@) {
                Some(self@[name@])
            } else {
                None::<Handler>
            }),
    {
        let key = String::from_str(name);
        proof {
            lemma_table_of(self.entries@);
        }
        match self.position_of(&key) {
            Some(i) => Some(self.entries[i].1),
            None => None,
        }
    }

    /// Registers `handler` under `name`. A name that is already registered is
    /// refused and the registry is left as it was.
    pub fn register(&mut self, name: &str, handler: Handler) -> (r: Result<(), RegisterError>)
        requires
            old(self).wf(),
        ensures
            final(self).wf(),
            old(self)@.contains_key(name@) ==> final(self)@ == old(self)@ && match r {
                Err(RegisterError::DuplicateCommand(n)) => n@ == name@,
                Ok(()) => false,
            },
            !old(self)@.contains_key(name@) ==> r is Ok && final(self)@ == old(self)@.insert(
                name@,
                handler,
            ),
    {
        let key = String::from_str(name);
        proof {
            lemma_table_of(self.entries@);
        }
        match self.position_of(&key) {
            Some(_) => Err(RegisterError::DuplicateCommand(key)),
            None => {
                let ghost before = self.entries@;
                self.entries.push((key, handler));
                proof {
                    assert(self.entries@.drop_last() =~= before);
                    assert forall|i: int, j: int|
                        0 <= i < j < self.entries@.len() implies #[trigger] self.entries@[i].0@
                        != #[trigger] self.entries@[j].0@ by {
                        if j < before.len() {
                            assert(before[i] == self.entries@[i] && before[j] == self.entries@[j]);
                        } else {
                            assert(before[i] == self.entries@[i]);
                        }
                    }
                }
                Ok(())
            },
        }
    }
}

/// The text value of the first argument under `key`, if that argument is text.
fn find_text_arg(args: &Vec<(String, ArgValue)>, key: &String) -> (r: Option<String>)
    ensures
        match r {
            Some(v) => text_arg(args@, key@) == Some(v@),
            None => text_arg(args@, key@) is None,
        },
{
    let n = args.len();
    let mut i: usize = 0;
    assert(args@.subrange(0, n as int) =~= args@);
    while i < n
        invariant
            n == args@.len(),
            i <= n,
            text_arg(args@, key@) == text_arg(args@.subrange(i as int, n as int), key@),
        decreases n - i,
    {
        let ghost rest = args@.subrange(i as int, n as int);
        assert(rest[0] == args@[i as int]);
        if args[i].0 == *key {
            return match &args[i].1 {
                ArgValue::Text(s) => Some(s.clone()),
                ArgValue::Other => None,
            };
        }
        assert(rest.subrange(1, rest.len() as int) =~= args@.subrange(i + 1, n as int));
        i = i + 1;
    }
    None
}

/// The key of the argument that `h` expects.
fn arg_key_of(h: Handler) -> (r: String)
    ensures
        r@ == arg_key(h),
{
    match h {
        Handler::Greet => {
            let key = "name";
            proof {
                reveal_strlit("name");
            }
            let r = String::from_str(key);
            proof {
                assert(r@ =~= arg_key(h));
            }
            r
        },
        Handler::ReadFileContent => {
            let key = "file_path";
            proof {
                reveal_strlit("file_path");
            }
            let r = String::from_str(key);
            proof {
                assert(r@ =~= arg_key(h));
            }
            r
        },
    }
}

impl CommandRegistry {
    /// The registry of the application: `greet` runs the greeting and
    /// `read_file_content` the file reader.
    pub fn with_app_commands() -> (r: CommandRegistry)
        ensures
            r.wf(),
            r@ == map![greet_command() => Handler::Greet, read_file_command() => Handler::ReadFileContent],
    {
        let mut registry = CommandRegistry::new();
        let greet_name = "greet";
        let read_name = "read_file_content";
        proof {
            reveal_strlit("greet");
            reveal_strlit("read_file_content");
            assert(greet_name@ =~= greet_command());
            assert(read_name@ =~= read_file_command());
            assert(greet_command().len() != read_file_command().len());
        }
        // Both names are new to the registry, so neither registration is refused.
        let _ = registry.register(greet_name, Handler::Greet);
        let _ = registry.register(read_name, Handler::ReadFileContent);
        proof {
            assert(registry@ =~= map![greet_command() => Handler::Greet, read_file_command() => Handler::ReadFileContent]);
        }
        registry
    }

    /// Resolves the command `name` and decodes its argument from `args`.
    /// An unregistered name is rejected as unknown; a registered one whose
    /// argument is missing or not text is rejected as invalid. Otherwise the
    /// handler's action is returned: the finished greeting, or the path that
    /// the file reader must read.
    pub fn dispatch(&self, name: &str, args: &Vec<(String, ArgValue)>) -> (r: Result<
        Action,
        DispatchError,
    >)
        requires
            self.wf(),
        ensures
            !self@.contains_key(name@) <==> r matches Err(DispatchError::UnknownCommand(_)),
            match r {
                Err(DispatchError::UnknownCommand(n)) => n@ == name@,
                Err(DispatchError::InvalidArguments(k)) => self@.contains_key(name@)
                    && text_arg(args@, arg_key(self@[name@])) is None && k@ == arg_key(
                    self@[name@],
                ),
                Ok(a) => self@.contains_key(name@) && match text_arg(
                    args@,
                    arg_key(self@[name@]),
                ) {
                    Some(v) => is_action_for(a, self@[name@], v),
                    None => false,
                },
            },
    {
        match self.lookup(name) {
            None => Err(DispatchError::UnknownCommand(String::from_str(name))),
            Some(h) => {
                let key = arg_key_of(h);
                match find_text_arg(args, &key) {
                    None => Err(DispatchError::InvalidArguments(key)),
                    Some(v) => match h {
                        Handler::Greet => Ok(Action::Respond(greet(v.as_str()))),
                        Handler::ReadFileContent => Ok(Action::ReadFile(v)),
                    },
                }
            },
        }
    }
}

} // verus!
