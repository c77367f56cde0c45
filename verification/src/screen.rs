//! What the terminal shows: the text for one message and for a whole log.

use vstd::prelude::*;
use crate::chat::{log_view, Message, MessageView};

verus! {

/// The line that shows one message: the name of its sender in square
/// brackets, a colon, the text, and a line feed.
pub open spec fn message_line(message: MessageView) -> Seq<char> {
    "["@ + message.sender.username + "]: "@ + message.text + "\n"@
}

/// The lines that show the messages of a log, in order.
pub open spec fn log_lines(log: Seq<MessageView>) -> Seq<char>
    decreases log.len(),
{
    if log.len() == 0 {
        Seq::empty()
    } else {
        log_lines(log.drop_last()) + message_line(log.last())
    }
}

/// What is written to the terminal to show `log`: the current line is
/// cleared, the messages follow, and the prompt comes back.
pub open spec fn screen_text(log: Seq<MessageView>) -> Seq<char> {
    "\r\x1b[2K"@ + log_lines(log) + ">> "@
}

/// Appends the line that shows `message` to `text`.
fn push_message_line(text: &mut String, message: &Message)
    ensures
        final(text)@ == old(text)@ + message_line(message@),
{
    text.append("[");
    text.append(message.sender.username.as_str());
    text.append("]: ");
    text.append(message.text.as_str());
    text.append("\n");
}

/// The text that shows one message that just arrived.
pub fn format_message(message: &Message) -> (text: String)
    ensures
        text@ == screen_text(seq![message@]),
{
    let mut text = String::from_str("\r\x1b[2K");
    push_message_line(&mut text, message);
    text.append(">> ");
    assert(log_lines(seq![message@].drop_last()) =~= Seq::<char>::empty());
    text
}

/// The text that shows a whole log.
pub fn format_all_messages(all_messages: &Vec<Message>) -> (text: String)
    ensures
        text@ == screen_text(log_view(all_messages@)),
{
    let ghost log = log_view(all_messages@);
    let mut text = String::from_str("\r\x1b[2K");
    let mut i: usize = 0;
    while i < all_messages.len()
        invariant
            i <= all_messages.len(),
            log == log_view(all_messages@),
            text@ == "\r\x1b[2K"@ + log_lines(log.take(i as int)),
        decreases all_messages.len() - i,
    {
        push_message_line(&mut text, &all_messages[i]);
        assert(log.take(i as int + 1).drop_last() =~= log.take(i as int));
        i += 1;
    }
    text.append(">> ");
    assert(log.take(all_messages.len() as int) =~= log);
    text
}

} // verus!
