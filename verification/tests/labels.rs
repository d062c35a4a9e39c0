use indexer_stream::message_metadata::{MessageSendType, MessageStreamType};

#[test]
fn send_types_have_their_labels() {
    assert_eq!(MessageSendType::DirectSend.get_label(), "DirectSend");
    assert_eq!(MessageSendType::RpcRequest.get_label(), "RpcRequest");
    assert_eq!(MessageSendType::RpcResponse.get_label(), "RpcResponse");
}

#[test]
fn stream_types_have_their_labels() {
    assert_eq!(MessageStreamType::NonStreamedMessage.get_label(), "NonStreamedMessage");
    assert_eq!(MessageStreamType::StreamedMessageHead.get_label(), "StreamedMessageHead");
    assert_eq!(MessageStreamType::StreamedMessageFragment.get_label(), "StreamedMessageFragment");
    assert_eq!(MessageStreamType::StreamedMessageTail.get_label(), "StreamedMessageTail");
}
