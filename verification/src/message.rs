//! Messages, in pieces: text that is ready, and values that are shown when the message is
//! printed.

use crate::binary64::Binary64;
use crate::path::FsPath;
use crate::wait::WaitStatus;
use vstd::prelude::*;

verus! {

/// A part of a message.
#[derive(Debug, PartialEq, Eq)]
pub enum Piece {
    /// Text, shown as it is.
    Text(String),
    /// Text, shown in quotes with escapes.
    QuotedText(String),
    /// A path, shown in quotes with escapes.
    QuotedPath(FsPath),
    /// A path, shown as it is.
    PlainPath(FsPath),
    /// A number, shown in the shortest form that reads back as it.
    Number(Binary64),
    /// What waiting for a process reported.
    Status(WaitStatus),
}

/// What a part of a message holds.
pub enum PieceView {
    Text(Seq<char>),
    QuotedText(Seq<char>),
    QuotedPath(Seq<u8>),
    PlainPath(Seq<u8>),
    Number(Binary64),
    Status(WaitStatus),
}

impl View for Piece {
    type V = PieceView;

    open spec fn view(&self) -> PieceView {
        match self {
            Piece::Text(text) => PieceView::Text(text@),
            Piece::QuotedText(text) => PieceView::QuotedText(text@),
            Piece::QuotedPath(path) => PieceView::QuotedPath(path@),
            Piece::PlainPath(path) => PieceView::PlainPath(path@),
            Piece::Number(number) => PieceView::Number(*number),
            Piece::Status(status) => PieceView::Status(*status),
        }
    }
}

/// A message: its parts, in the order in which they are shown.
#[derive(Debug, PartialEq, Eq)]
pub struct Message {
    pub pieces: Vec<Piece>,
}

impl View for Message {
    type V = Seq<PieceView>;

    open spec fn view(&self) -> Seq<PieceView> {
        self.pieces@.map_values(|piece: Piece| piece@)
    }
}

/// A message that is text alone.
pub open spec fn plain(text: Seq<char>) -> Seq<PieceView> {
    seq![PieceView::Text(text)]
}

impl Message {
    /// A message without parts.
    pub fn new() -> (res: Message)
        ensures
            res@ == Seq::<PieceView>::empty(),
    {
        let res: Message = Message { pieces: Vec::new() };
        assert(res@ =~= Seq::<PieceView>::empty());
        res
    }

    /// The message with one more part at its end.
    pub fn with(self, piece: Piece) -> (res: Message)
        ensures
            res@ == self@.push(piece@),
    {
        let mut pieces: Vec<Piece> = self.pieces;
        pieces.push(piece);
        let res: Message = Message { pieces };
        assert(res@ =~= self@.push(piece@));
        res
    }

    /// The message that is `text` alone.
    pub fn text(text: &str) -> (res: Message)
        ensures
            res@ == plain(text@),
    {
        let res: Message = Message::new().with(Piece::Text(String::from_str(text)));
        assert(res@ =~= plain(text@));
        res
    }

    /// The message with more text at its end.
    pub fn then_text(self, text: &str) -> (res: Message)
        ensures
            res@ == self@.push(PieceView::Text(text@)),
    {
        self.with(Piece::Text(String::from_str(text)))
    }
}

/// The texts that the messages hold, one for each.
pub open spec fn message_views(messages: Seq<Message>) -> Seq<Seq<PieceView>> {
    messages.map_values(|message: Message| message@)
}

/// A message shows each of its parts, with what it holds, in their order.
pub proof fn messages_show_all_their_parts(message: Message, text: Seq<char>, i: int)
    requires
        0 <= i < message.pieces@.len(),
    ensures
        message@.len() == message.pieces@.len(),
        message.pieces@[i] matches Piece::Text(part) ==> message@[i] == PieceView::Text(part@),
        message.pieces@[i] matches Piece::QuotedText(part) ==> message@[i]
            == PieceView::QuotedText(part@),
        message.pieces@[i] matches Piece::QuotedPath(path) ==> message@[i]
            == PieceView::QuotedPath(path.bytes@),
        message.pieces@[i] matches Piece::PlainPath(path) ==> message@[i]
            == PieceView::PlainPath(path.bytes@),
        message.pieces@[i] matches Piece::Number(number) ==> message@[i]
            == PieceView::Number(number),
        message.pieces@[i] matches Piece::Status(status) ==> message@[i]
            == PieceView::Status(status),
        plain(text) == seq![PieceView::Text(text)],
{
}

} // verus!
