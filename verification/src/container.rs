//! Starting the command of a container.

use crate::message::{Message, Piece, PieceView};
use crate::request::{explained_task, text_views, Request, RequestView, Task, TaskView};
use crate::text::{decimal, numbers_are_spelled, spells, write_decimal};
use vstd::prelude::*;
use vstd::utf8::encode_utf8;

verus! {

/// A zero byte in a command line, which no program can be started with.
#[derive(Clone, Copy, PartialEq, Eq, Structural, Debug)]
pub struct NulError {
    /// The argument that holds it, or nothing where the program does.
    pub argument: Option<usize>,
    /// Where it stands, in bytes.
    pub position: usize,
}

impl NulError {
    /// The part of the command line that holds the byte. The program is part zero.
    pub open spec fn part(self) -> int {
        match self.argument {
            None => 0,
            Some(i) => i + 1,
        }
    }
}

/// The part of the command line holds no zero byte.
pub open spec fn free_of_nul(part: Seq<char>) -> bool {
    forall|i: int| 0 <= i < encode_utf8(part).len() ==> #[trigger] encode_utf8(part)[i] != 0
}

/// The error names the first zero byte of a command line.
pub open spec fn names_first_nul(argv: Seq<Seq<char>>, error: NulError) -> bool {
    &&& error.part() < argv.len()
    &&& error.position < encode_utf8(argv[error.part()]).len()
    &&& encode_utf8(argv[error.part()])[error.position as int] == 0
    &&& forall|i: int|
        0 <= i < error.position ==> #[trigger] encode_utf8(argv[error.part()])[i] != 0
    &&& forall|k: int| 0 <= k < error.part() ==> free_of_nul(#[trigger] argv[k])
}

/// The first zero byte of a command line, if there is one.
pub open spec fn first_nul(argv: Seq<Seq<char>>) -> Option<NulError> {
    if exists|error: NulError| names_first_nul(argv, error) {
        Some(choose|error: NulError| names_first_nul(argv, error))
    } else {
        None
    }
}

/// The command line of a program: the program, and its arguments.
pub open spec fn command_line(cmd: Seq<char>, args: Seq<Seq<char>>) -> Seq<Seq<char>> {
    seq![cmd] + args
}

/// Replace the process by the command.
pub open spec fn execution(cmd: Seq<char>, args: Seq<Seq<char>>) -> TaskView {
    explained_task(
        RequestView::Execute { program: cmd, argv: command_line(cmd, args) },
        seq![PieceView::Text("exec "@), PieceView::QuotedText(cmd)],
    )
}

/// What is said of a zero byte, where it is named as a part of the command line.
pub open spec fn nul_context(error: NulError) -> Seq<PieceView> {
    if error.argument is None {
        seq![PieceView::Text("cmd contains a nul byte"@)]
    } else {
        seq![PieceView::Text("arg contains a nul byte"@)]
    }
}

/// What is said of a zero byte in itself.
pub open spec fn nul_cause(error: NulError) -> Seq<PieceView> {
    seq![
        PieceView::Text(
            "nul byte found in provided data at position: "@ + decimal(error.position as nat),
        ),
    ]
}

/// The first zero byte of a command line is the only one that is first.
pub proof fn first_nul_is_unique(argv: Seq<Seq<char>>, error: NulError)
    requires
        names_first_nul(argv, error),
    ensures
        first_nul(argv) == Some(error),
{
    let other = choose|other: NulError| names_first_nul(argv, other);
    assert(names_first_nul(argv, other));
    if other.part() < error.part() {
        assert(free_of_nul(argv[other.part()]));
    } else if error.part() < other.part() {
        assert(free_of_nul(argv[error.part()]));
    }
}

/// A command line without zero bytes can be started.
pub proof fn clean_command_lines_are_accepted(argv: Seq<Seq<char>>)
    requires
        forall|k: int| 0 <= k < argv.len() ==> free_of_nul(#[trigger] argv[k]),
    ensures
        first_nul(argv) is None,
{
    if first_nul(argv) is Some {
        let error = choose|error: NulError| names_first_nul(argv, error);
        assert(free_of_nul(argv[error.part()]));
    }
}

impl NulError {
    /// What is said of the error, where it is named as a part of the command line.
    pub fn context(&self) -> (res: Message)
        ensures
            res@ == nul_context(*self),
    {
        let res: Message = if self.argument.is_none() {
            Message::text("cmd contains a nul byte")
        } else {
            Message::text("arg contains a nul byte")
        };
        assert(res@ =~= nul_context(*self));
        res
    }

    /// What is said of the error in itself.
    pub fn cause(&self) -> (res: Message)
        ensures
            res@ == nul_cause(*self),
    {
        let mut text: String = String::from_str("nul byte found in provided data at position: ");
        text.append(write_decimal(self.position as u64).as_str());
        let res: Message = Message::text(text.as_str());
        assert(res@ =~= nul_cause(*self));
        res
    }
}

fn find_nul(part: &str) -> (res: Option<usize>)
    ensures
        match res {
            Some(position) => {
                &&& position < encode_utf8(part@).len()
                &&& encode_utf8(part@)[position as int] == 0
                &&& forall|i: int| 0 <= i < position ==> #[trigger] encode_utf8(part@)[i] != 0
            },
            None => free_of_nul(part@),
        },
{
    let bytes: &[u8] = part.as_bytes();
    let mut i: usize = 0;
    while i < bytes.len()
        invariant
            i <= bytes.len(),
            bytes@ == encode_utf8(part@),
            forall|k: int| 0 <= k < i ==> #[trigger] bytes@[k] != 0,
        decreases bytes.len() - i,
    {
        if bytes[i] == 0 {
            return Some(i);
        }
        i = i + 1;
    }
    None
}

/// The task that replaces the process by `cmd` with its arguments, or the zero byte that
/// forbids it.
pub fn exec_cmd(cmd: &str, args: &Vec<String>) -> (res: Result<Task, NulError>)
    ensures
        match res {
            Ok(task) => {
                &&& first_nul(command_line(cmd@, text_views(args@))) is None
                &&& task@ == execution(cmd@, text_views(args@))
                &&& task.request matches Request::Execute { program, argv }
                &&& program@ == cmd@
                &&& argv@.len() == args@.len() + 1
                &&& argv@[0]@ == cmd@
                &&& forall|i: int|
                    0 <= i < args@.len() ==> #[trigger] argv@[i + 1]@ == args@[i]@
            },
            Err(error) => {
                let part = match error.argument {
                    None => cmd@,
                    Some(i) => args@[i as int]@,
                };
                &&& first_nul(command_line(cmd@, text_views(args@))) == Some(error)
                &&& error.argument matches Some(i) ==> i < args@.len()
                &&& error.position < encode_utf8(part).len()
                &&& encode_utf8(part)[error.position as int] == 0
            },
        },
{
    let ghost line = command_line(cmd@, text_views(args@));
    let mut argv: Vec<String> = Vec::new();
    if let Some(position) = find_nul(cmd) {
        let error: NulError = NulError { argument: None, position };
        proof {
            assert(line[0] == cmd@);
            first_nul_is_unique(line, error);
        }
        return Err(error);
    }
    argv.push(String::from_str(cmd));
    assert(text_views(argv@) =~= line.take(1));
    let mut i: usize = 0;
    while i < args.len()
        invariant
            i <= args@.len(),
            line == command_line(cmd@, text_views(args@)),
            text_views(argv@) == line.take(i + 1),
            forall|k: int| 0 <= k <= i ==> free_of_nul(#[trigger] line[k]),
        decreases args.len() - i,
    {
        assert(line[i + 1] == args@[i as int]@);
        if let Some(position) = find_nul(args[i].as_str()) {
            let error: NulError = NulError { argument: Some(i), position };
            proof {
                first_nul_is_unique(line, error);
            }
            return Err(error);
        }
        let ghost before = argv@;
        argv.push(String::from_str(args[i].as_str()));
        assert(text_views(argv@) =~= text_views(before).push(line[i + 1]));
        assert(text_views(argv@) =~= line.take(i + 2));
        i = i + 1;
    }
    proof {
        assert(line.take(i + 1) =~= line);
        clean_command_lines_are_accepted(line);
    }
    let context: Message = Message::text("exec ").with(
        Piece::QuotedText(String::from_str(cmd)),
    );
    assert(context@ =~= execution(cmd@, text_views(args@)).contexts[0]);
    let task: Task = Task::explained(
        Request::Execute { program: String::from_str(cmd), argv },
        context,
    );
    proof {
        let built = task.request->argv@;
        assert(text_views(built) == line);
        assert(text_views(built)[0] == built[0]@);
        assert forall|i: int| 0 <= i < args@.len() implies #[trigger] built[i + 1]@
            == args@[i]@ by {
            assert(text_views(built)[i + 1] == built[i + 1]@);
            assert(line[i + 1] == text_views(args@)[i]);
        }
    }
    Ok(task)
}

/// A command gets all its arguments, in their order and after its own name, and nothing more.
pub proof fn commands_get_all_their_arguments(cmd: Seq<char>, args: Seq<Seq<char>>)
    ensures
        execution(cmd, args).request matches RequestView::Execute { program, argv } && {
            &&& program == cmd
            &&& argv.len() == args.len() + 1
            &&& argv[0] == cmd
            &&& forall|i: int| 0 <= i < args.len() ==> argv[i + 1] == #[trigger] args[i]
        },
        execution(cmd, args).contexts == seq![
            seq![PieceView::Text("exec "@), PieceView::QuotedText(cmd)],
        ],
{
}

/// No part of the command line holds a zero byte.
pub open spec fn holds_no_zero(argv: Seq<Seq<char>>) -> bool {
    forall|k: int, i: int|
        0 <= k < argv.len() && 0 <= i < encode_utf8(argv[k]).len() ==> #[trigger] encode_utf8(
            argv[k],
        )[i] != 0
}

/// The part of the command line holds a zero byte at the position, and there is none before
/// it, in this part or in another.
pub open spec fn first_zero_stands_at(argv: Seq<Seq<char>>, part: int, position: int) -> bool {
    &&& 0 <= part < argv.len()
    &&& 0 <= position < encode_utf8(argv[part]).len()
    &&& encode_utf8(argv[part])[position] == 0
    &&& holds_no_zero(argv.take(part))
    &&& forall|i: int| 0 <= i < position ==> #[trigger] encode_utf8(argv[part])[i] != 0
}

/// A command line is refused exactly if it holds a zero byte, and then for the first one: no
/// part before holds one, nor does the part itself before that place.
pub proof fn zero_bytes_are_refused(argv: Seq<Seq<char>>)
    requires
        argv.len() <= usize::MAX,
        forall|k: int|
            0 <= k < argv.len() ==> encode_utf8(#[trigger] argv[k]).len() <= usize::MAX,
    ensures
        first_nul(argv) is None <==> holds_no_zero(argv),
        first_nul(argv) matches Some(error) ==> match error.argument {
            None => first_zero_stands_at(argv, 0, error.position as int),
            Some(i) => first_zero_stands_at(argv, i + 1, error.position as int),
        },
{
    if holds_no_zero(argv) {
        assert forall|k: int| 0 <= k < argv.len() implies free_of_nul(#[trigger] argv[k]) by {}
        clean_command_lines_are_accepted(argv);
    } else {
        let (k, i) = choose|k: int, i: int|
            0 <= k < argv.len() && 0 <= i < encode_utf8(argv[k]).len() && #[trigger] encode_utf8(
                argv[k],
            )[i] == 0;
        assert(!free_of_nul(argv[k]));
        let error = first_zero(argv, 0, k);
        first_nul_is_unique(argv, error);
    }
    if let Some(error) = first_nul(argv) {
        assert(names_first_nul(argv, error));
        let before = argv.take(error.part());
        assert forall|k: int, i: int|
            0 <= k < before.len() && 0 <= i < encode_utf8(before[k]).len() implies
            #[trigger] encode_utf8(before[k])[i] != 0 by {
            assert(before[k] == argv[k]);
            assert(free_of_nul(argv[k]));
        }
    }
}

proof fn first_zero(argv: Seq<Seq<char>>, from: int, k: int) -> (error: NulError)
    requires
        argv.len() <= usize::MAX,
        forall|j: int|
            0 <= j < argv.len() ==> encode_utf8(#[trigger] argv[j]).len() <= usize::MAX,
        0 <= from <= k < argv.len(),
        !free_of_nul(argv[k]),
        forall|j: int| 0 <= j < from ==> free_of_nul(#[trigger] argv[j]),
    ensures
        names_first_nul(argv, error),
    decreases k - from,
{
    if free_of_nul(argv[from]) {
        first_zero(argv, from + 1, k)
    } else {
        let i = choose|i: int|
            0 <= i < encode_utf8(argv[from]).len() && #[trigger] encode_utf8(argv[from])[i] == 0;
        let position = first_zero_in(encode_utf8(argv[from]), 0, i);
        let error = NulError {
            argument: if from == 0 {
                None
            } else {
                Some((from - 1) as usize)
            },
            position: position as usize,
        };
        assert(error.part() == from);
        error
    }
}

proof fn first_zero_in(bytes: Seq<u8>, from: int, i: int) -> (position: int)
    requires
        0 <= from <= i < bytes.len(),
        bytes[i] == 0,
        forall|j: int| 0 <= j < from ==> #[trigger] bytes[j] != 0,
    ensures
        0 <= position < bytes.len(),
        bytes[position] == 0,
        forall|j: int| 0 <= j < position ==> #[trigger] bytes[j] != 0,
    decreases i - from,
{
    if bytes[from] == 0 {
        from
    } else {
        first_zero_in(bytes, from + 1, i)
    }
}

/// What is said of a zero byte spells out where it stands.
pub proof fn zero_bytes_are_located(error: NulError)
    ensures
        nul_cause(error).len() == 1,
        nul_cause(error)[0] matches PieceView::Text(text) && {
            let words = "nul byte found in provided data at position: "@;
            &&& text.take(words.len() as int) == words
            &&& spells(text.skip(words.len() as int), error.position as nat, 10)
        },
        error.argument is None ==> nul_context(error) == seq![
            PieceView::Text("cmd contains a nul byte"@),
        ],
        error.argument is Some ==> nul_context(error) == seq![
            PieceView::Text("arg contains a nul byte"@),
        ],
{
    let words = "nul byte found in provided data at position: "@;
    let digits = decimal(error.position as nat);
    numbers_are_spelled(error.position as nat, 0);
    assert((words + digits).take(words.len() as int) =~= words);
    assert((words + digits).skip(words.len() as int) =~= digits);
}

} // verus!
