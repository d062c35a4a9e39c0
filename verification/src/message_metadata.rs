//! How a message of the network is sent, for the labels of its metrics.

use vstd::prelude::*;

verus! {

/// The kind of send that a message belongs to.
#[derive(Clone, Copy, Debug, PartialEq, Eq, Structural)]
pub enum MessageSendType {
    /// A direct send message to another peer.
    DirectSend,
    /// An RPC request to another peer.
    RpcRequest,
    /// An RPC response for a request sent by another peer.
    RpcResponse,
}

impl MessageSendType {
    pub open spec fn label(self) -> Seq<char> {
        match self {
            MessageSendType::DirectSend => "DirectSend"@,
            MessageSendType::RpcRequest => "RpcRequest"@,
            MessageSendType::RpcResponse => "RpcResponse"@,
        }
    }

    /// The name of the kind, as metrics show it.
    pub fn get_label(&self) -> (label: &'static str)
        ensures
            label@ == self.label(),
    {
        match self {
            MessageSendType::DirectSend => "DirectSend",
            MessageSendType::RpcRequest => "RpcRequest",
            MessageSendType::RpcResponse => "RpcResponse",
        }
    }
}

/// Where in a stream of fragments a message stands.
#[derive(Clone, Copy, Debug, PartialEq, Eq, Structural)]
pub enum MessageStreamType {
    /// A message that fits into a single chunk.
    NonStreamedMessage,
    /// The first fragment of a streamed message.
    StreamedMessageHead,
    /// A fragment of a streamed message that is neither head nor tail.
    StreamedMessageFragment,
    /// The last fragment of a streamed message.
    StreamedMessageTail,
}

impl MessageStreamType {
    pub open spec fn label(self) -> Seq<char> {
        match self {
            MessageStreamType::NonStreamedMessage => "NonStreamedMessage"@,
            MessageStreamType::StreamedMessageHead => "StreamedMessageHead"@,
            MessageStreamType::StreamedMessageFragment => "StreamedMessageFragment"@,
            MessageStreamType::StreamedMessageTail => "StreamedMessageTail"@,
        }
    }

    /// The name of the position, as metrics show it.
    pub fn get_label(&self) -> (label: &'static str)
        ensures
            label@ == self.label(),
    {
        match self {
            MessageStreamType::NonStreamedMessage => "NonStreamedMessage",
            MessageStreamType::StreamedMessageHead => "StreamedMessageHead",
            MessageStreamType::StreamedMessageFragment => "StreamedMessageFragment",
            MessageStreamType::StreamedMessageTail => "StreamedMessageTail",
        }
    }
}

} // verus!
