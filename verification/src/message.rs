//! RPC message.
use crate::data::{FieldModel, Struct};
use vstd::prelude::*;

verus! {

/// The kind of a message.
///
/// The kinds are listed in the order of their wire codes, `1` to `4`.
#[derive(Debug, Clone, Copy, PartialEq, Eq, PartialOrd, Ord, Hash, Structural)]
#[allow(missing_docs)]
pub enum MessageKind {
    Call,
    Reply,
    Exception,
    Oneway,
}

impl MessageKind {
    /// The wire code of this kind.
    pub open spec fn code(self) -> u8 {
        match self {
            MessageKind::Call => 1,
            MessageKind::Reply => 2,
            MessageKind::Exception => 3,
            MessageKind::Oneway => 4,
        }
    }

    /// The kind with the wire code `n`, if there is one.
    pub open spec fn from_code(n: u8) -> Option<MessageKind> {
        match n {
            1 => Some(MessageKind::Call),
            2 => Some(MessageKind::Reply),
            3 => Some(MessageKind::Exception),
            4 => Some(MessageKind::Oneway),
            _ => None,
        }
    }

    /// Returns the wire code of this kind.
    pub fn to_u8(self) -> (n: u8)
        ensures
            n == self.code(),
            1 <= n <= 4,
            MessageKind::from_code(n) == Some(self),
    {
        match self {
            MessageKind::Call => 1,
            MessageKind::Reply => 2,
            MessageKind::Exception => 3,
            MessageKind::Oneway => 4,
        }
    }

    /// Returns the kind with the wire code `n`.
    pub fn from_u8(n: u8) -> (kind: Option<MessageKind>)
        ensures
            kind == MessageKind::from_code(n),
            kind matches Some(k) ==> k.code() == n,
    {
        match n {
            1 => Some(MessageKind::Call),
            2 => Some(MessageKind::Reply),
            3 => Some(MessageKind::Exception),
            4 => Some(MessageKind::Oneway),
            _ => None,
        }
    }
}

/// The model of a [`Message`].
pub struct MessageModel {
    pub method_name: Seq<char>,
    pub kind: MessageKind,
    pub sequence_id: i32,
    pub body: Seq<FieldModel>,
}

/// RPC message.
#[derive(Debug, PartialEq)]
pub struct Message {
    method_name: String,
    kind: MessageKind,
    sequence_id: i32,
    body: Struct,
}

impl View for Message {
    type V = MessageModel;

    closed spec fn view(&self) -> MessageModel {
        MessageModel {
            method_name: self.method_name@,
            kind: self.kind,
            sequence_id: self.sequence_id,
            body: self.body@,
        }
    }
}

impl Clone for Message {
    fn clone(&self) -> (m: Self)
        ensures
            m@ == self@,
    {
        Message {
            method_name: self.method_name.clone(),
            kind: self.kind,
            sequence_id: self.sequence_id,
            body: self.body.clone(),
        }
    }
}

impl Message {
    /// Makes a new `Message` instance.
    pub fn new(method_name: &str, kind: MessageKind, sequence_id: i32, body: Struct) -> (m: Self)
        ensures
            m@ == (MessageModel { method_name: method_name@, kind, sequence_id, body: body@ }),
    {
        Message { method_name: method_name.to_owned(), kind, sequence_id, body }
    }

    /// Makes a new `Message` instance which has the kind `MessageKind::Call`.
    pub fn call(method_name: &str, sequence_id: i32, body: Struct) -> (m: Self)
        ensures
            m@ == (MessageModel {
                method_name: method_name@,
                kind: MessageKind::Call,
                sequence_id,
                body: body@,
            }),
    {
        Self::new(method_name, MessageKind::Call, sequence_id, body)
    }

    /// Makes a new `Message` instance which has the kind `MessageKind::Reply`.
    pub fn reply(method_name: &str, sequence_id: i32, body: Struct) -> (m: Self)
        ensures
            m@ == (MessageModel {
                method_name: method_name@,
                kind: MessageKind::Reply,
                sequence_id,
                body: body@,
            }),
    {
        Self::new(method_name, MessageKind::Reply, sequence_id, body)
    }

    /// Makes a new `Message` instance which has the kind `MessageKind::Exception`.
    pub fn exception(method_name: &str, sequence_id: i32, body: Struct) -> (m: Self)
        ensures
            m@ == (MessageModel {
                method_name: method_name@,
                kind: MessageKind::Exception,
                sequence_id,
                body: body@,
            }),
    {
        Self::new(method_name, MessageKind::Exception, sequence_id, body)
    }

    /// Makes a new `Message` instance which has the kind `MessageKind::Oneway`.
    pub fn oneway(method_name: &str, sequence_id: i32, body: Struct) -> (m: Self)
        ensures
            m@ == (MessageModel {
                method_name: method_name@,
                kind: MessageKind::Oneway,
                sequence_id,
                body: body@,
            }),
    {
        Self::new(method_name, MessageKind::Oneway, sequence_id, body)
    }

    /// Returns the method name of this message.
    pub fn method_name(&self) -> (name: &str)
        ensures
            name@ == self@.method_name,
    {
        self.method_name.as_str()
    }

    /// Returns the kind of this message.
    pub fn kind(&self) -> (kind: MessageKind)
        ensures
            kind == self@.kind,
    {
        self.kind
    }

    /// Returns the sequence id of this message.
    pub fn sequence_id(&self) -> (id: i32)
        ensures
            id == self@.sequence_id,
    {
        self.sequence_id
    }

    /// Returns the body of this message.
    pub fn body(&self) -> (body: &Struct)
        ensures
            body@ == self@.body,
    {
        &self.body
    }
}

} // verus!
