//! Chat-completion message assembly.
//!
//! The HTTP exchange with the completion API belongs to the application
//! layer; what is verified here is the shape of the conversation handed to
//! it: an optional system message followed by exactly one user message.
use vstd::prelude::*;
use vstd::string::StringExecFns;

verus! {

/// One chat message: a role (`system` or `user` here) and its text.
#[derive(Clone)]
pub struct Message {
    pub role: String,
    pub content: String,
}

/// The mathematical value of a message.
pub struct MessageModel {
    pub role: Seq<char>,
    pub content: Seq<char>,
}

impl View for Message {
    type V = MessageModel;

    open spec fn view(&self) -> MessageModel {
        MessageModel { role: self.role@, content: self.content@ }
    }
}

impl DeepView for Message {
    type V = MessageModel;

    open spec fn deep_view(&self) -> MessageModel {
        self.view()
    }
}

/// Builds the message list for one completion request: the system prompt,
/// when there is one, comes first; the user's prompt is always last.
pub fn build_messages(system_prompt: Option<&str>, user_prompt: &str) -> (v: Vec<Message>)
    ensures
        match system_prompt {
            Option::Some(s) => v.deep_view() == seq![
                MessageModel { role: "system"@, content: s@ },
                MessageModel { role: "user"@, content: user_prompt@ },
            ],
            Option::None => v.deep_view() == seq![
                MessageModel { role: "user"@, content: user_prompt@ },
            ],
        },
{
    let mut v: Vec<Message> = Vec::new();
    if let Option::Some(s) = system_prompt {
        v.push(
            Message { role: String::from_str("system"), content: String::from_str(s) },
        );
    }
    v.push(
        Message { role: String::from_str("user"), content: String::from_str(user_prompt) },
    );
    proof {
        match system_prompt {
            Option::Some(s) => {
                assert(v.deep_view() =~= seq![
                    MessageModel { role: "system"@, content: s@ },
                    MessageModel { role: "user"@, content: user_prompt@ },
                ]);
            }
            Option::None => {
                assert(v.deep_view() =~= seq![
                    MessageModel { role: "user"@, content: user_prompt@ },
                ]);
            }
        }
    }
    v
}

} // verus!
