use vstd::prelude::*;
use std::collections::HashMap;
use crate::stop::StopManager;
use crate::template::{format_content, formatted};

verus! {

/// Who speaks in a message of a prompt.
#[derive(Debug, PartialEq, Eq, Structural, Clone, Copy)]
pub enum Role {
    User,
    Assistant,
    System,
}

impl Role {
    /// The role's name in lower case, as chat templates and APIs spell it.
    pub fn lowercase(&self) -> (r: &'static str)
        ensures
            r@ == match *self {
                Role::User => "user"@,
                Role::Assistant => "assistant"@,
                Role::System => "system"@,
            },
    {
        match self {
            Role::User => "user",
            Role::Assistant => "assistant",
            Role::System => "system",
        }
    }
}

/// A message of a prompt. `content` is `None` for a turn still to be
/// generated, which is not the same as an empty text.
#[derive(Debug, Clone)]
pub struct Message {
    pub role: Role,
    pub content: Option<String>,
}

impl Message {
    /// The message with the placeholders of its content filled from `args`.
    pub fn format_content(self, args: &HashMap<String, String>) -> (r: Message)
        ensures
            r.role == self.role,
            self.content is None ==> r.content is None,
            self.content matches Some(c) ==> (r.content matches Some(d) && d@ == formatted(c@, args@)),
    {
        let mut m = self;
        m.format_content_as_ref(args);
        m
    }

    /// Fills the placeholders of the content from `args`, in place.
    pub fn format_content_as_ref(&mut self, args: &HashMap<String, String>)
        ensures
            final(self).role == old(self).role,
            old(self).content is None ==> final(self).content is None,
            old(self).content matches Some(c) ==> (final(self).content matches Some(d) && d@ == formatted(
                c@,
                args@,
            )),
    {
        match &self.content {
            Some(c) => {
                let d = format_content(c.as_str(), args);
                self.content = Some(d);
            },
            None => {},
        }
    }
}

/// Stop texts that a prompt configures.
#[derive(Debug)]
pub enum Stop {
    /// No stop text is configured.
    Unset,
    One(String),
    Many(Vec<String>),
}

impl Stop {
    pub fn is_none(&self) -> (r: bool)
        ensures
            r == (*self is Unset),
    {
        match self {
            Stop::Unset => true,
            _ => false,
        }
    }
}

/// Texts around each message of a prompt, for a model whose template is none
/// of the built-in ones.
#[derive(Debug)]
pub struct CustomTemplate {
    pub system_prefix: String,
    pub system_suffix: String,
    pub user_prefix: String,
    pub user_suffix: String,
    pub assistant_prefix: String,
    pub assistant_suffix: String,
}

/// How the messages of a prompt are laid out for a local model.
#[derive(Debug)]
pub enum PromptTemplate {
    ChatML,
    Llama2,
    Llama3,
    Custom(CustomTemplate),
}

/// The text that marks the start of a new user turn under a template.
pub open spec fn turn_stop(t: PromptTemplate) -> Seq<char> {
    match t {
        PromptTemplate::ChatML => "<|im_end|>"@,
        PromptTemplate::Llama2 => "[INST]"@,
        PromptTemplate::Llama3 => "<|eot_id|>"@,
        PromptTemplate::Custom(c) => c.user_prefix@,
    }
}

impl PromptTemplate {
    pub fn name(&self) -> (r: &'static str)
        ensures
            r@ == match *self {
                PromptTemplate::ChatML => "chatml"@,
                PromptTemplate::Llama2 => "llama2"@,
                PromptTemplate::Llama3 => "llama3"@,
                PromptTemplate::Custom(_) => "custom"@,
            },
    {
        match self {
            PromptTemplate::ChatML => "chatml",
            PromptTemplate::Llama2 => "llama2",
            PromptTemplate::Llama3 => "llama3",
            PromptTemplate::Custom(_) => "custom",
        }
    }

    /// The stop texts of generation under this template: the text that ends
    /// the assistant's turn, then the model's end-of-stream text `eos`. An
    /// empty text, which nothing could match, is left out.
    pub fn stop_tokens(&self, eos: &str) -> (r: StopManager)
        ensures
            r.wf(),
            r.texts() == (if turn_stop(*self).len() > 0 {
                seq![turn_stop(*self)]
            } else {
                Seq::empty()
            }) + (if eos@.len() > 0 {
                seq![eos@]
            } else {
                Seq::empty()
            }),
            forall|i: int| 0 <= i < r.indices().len() ==> #[trigger] r.indices()[i] == 0,
    {
        let mut m = StopManager::new();
        let turn: &str = match self {
            PromptTemplate::ChatML => "<|im_end|>",
            PromptTemplate::Llama2 => "[INST]",
            PromptTemplate::Llama3 => "<|eot_id|>",
            PromptTemplate::Custom(c) => c.user_prefix.as_str(),
        };
        if turn.unicode_len() > 0 {
            m.add_stop_from_string(turn);
        }
        if eos.unicode_len() > 0 {
            m.add_stop_from_string(eos);
        }
        assert(m.texts() =~= (if turn_stop(*self).len() > 0 {
            seq![turn_stop(*self)]
        } else {
            Seq::empty()
        }) + (if eos@.len() > 0 {
            seq![eos@]
        } else {
            Seq::empty()
        }));
        m
    }
}


/// A message as a mathematical value.
pub struct MessageModel {
    pub role: Role,
    pub content: Option<Seq<char>>,
}

impl View for Message {
    type V = MessageModel;

    open spec fn view(&self) -> MessageModel {
        MessageModel {
            role: self.role,
            content: match &self.content {
                Some(c) => Some(c@),
                None => None,
            },
        }
    }
}

/// A text of a laid-out prompt. A special text may hold the model's control
/// tokens; a plain one is message content, tokenized as text.
#[derive(Debug, PartialEq, Clone)]
pub struct PromptPiece {
    pub text: String,
    pub special: bool,
}

pub struct PieceModel {
    pub text: Seq<char>,
    pub special: bool,
}

impl View for PromptPiece {
    type V = PieceModel;

    open spec fn view(&self) -> PieceModel {
        PieceModel { text: self.text@, special: self.special }
    }
}

/// A special text, as a one-piece layout.
pub open spec fn special_piece(s: Seq<char>) -> Seq<PieceModel> {
    seq![PieceModel { text: s, special: true }]
}

/// A plain text, as a one-piece layout.
pub open spec fn plain_piece(s: Seq<char>) -> Seq<PieceModel> {
    seq![PieceModel { text: s, special: false }]
}

pub open spec fn role_text(r: Role) -> Seq<char> {
    match r {
        Role::User => "user"@,
        Role::Assistant => "assistant"@,
        Role::System => "system"@,
    }
}

/// The pieces of one message under a template. A system or user message
/// without content gives nothing; so does, under Llama 2, any message
/// without content.
pub open spec fn message_pieces(t: PromptTemplate, m: MessageModel) -> Seq<PieceModel> {
    if m.content is None && (m.role != Role::Assistant || t is Llama2) {
        Seq::empty()
    } else {
        match t {
            PromptTemplate::ChatML => special_piece("<|im_start|>"@) + special_piece(role_text(m.role)) + special_piece("\n"@) + match m.content {
                Some(c) => plain_piece(c) + special_piece("<|im_end|>"@) + special_piece("\n"@),
                None => Seq::empty(),
            },
            PromptTemplate::Llama2 => {
                let c = m.content->0;
                match m.role {
                    Role::System => special_piece("[INST]"@) + special_piece("<<SYS>>"@) + plain_piece(c) + special_piece("<</SYS>>"@) + special_piece("[/INST]"@) + special_piece(
                        "\n"@,
                    ),
                    Role::User => special_piece("[INST]"@) + plain_piece(c) + special_piece("[/INST]"@) + special_piece("\n"@),
                    Role::Assistant => plain_piece(c) + special_piece("</s>"@) + special_piece("\n"@),
                }
            },
            PromptTemplate::Llama3 => special_piece("<|start_header_id|>"@) + special_piece(role_text(m.role)) + special_piece(
                "<|end_header_id|>"@,
            ) + special_piece("\n"@) + special_piece("\n"@) + match m.content {
                Some(c) => plain_piece(c) + special_piece("<|eot_id|>"@),
                None => Seq::empty(),
            },
            PromptTemplate::Custom(ct) => match m.role {
                Role::System => special_piece(ct.system_prefix@) + plain_piece(m.content->0) + special_piece(ct.system_suffix@),
                Role::User => special_piece(ct.user_prefix@) + plain_piece(m.content->0) + special_piece(ct.user_suffix@),
                Role::Assistant => special_piece(ct.assistant_prefix@) + match m.content {
                    Some(c) => plain_piece(c) + special_piece(ct.assistant_suffix@),
                    None => Seq::empty(),
                },
            },
        }
    }
}

/// The pieces of a whole prompt, message after message.
pub open spec fn layout_spec(t: PromptTemplate, msgs: Seq<MessageModel>) -> Seq<PieceModel>
    decreases msgs.len(),
{
    if msgs.len() == 0 {
        Seq::empty()
    } else {
        layout_spec(t, msgs.drop_last()) + message_pieces(t, msgs.last())
    }
}

fn push_piece(out: &mut Vec<PromptPiece>, text: &str, special: bool)
    ensures
        final(out)@.map_values(|p: PromptPiece| p@) == old(out)@.map_values(|p: PromptPiece| p@).push(
            PieceModel { text: text@, special },
        ),
{
    out.push(PromptPiece { text: String::from_str(text), special });
    assert(out@.map_values(|p: PromptPiece| p@) =~= old(out)@.map_values(|p: PromptPiece| p@).push(
        PieceModel { text: text@, special },
    ));
}

impl PromptTemplate {
    /// Appends the pieces of one message.
    #[verifier::rlimit(40)]
    fn message_to_pieces(&self, m: &Message, out: &mut Vec<PromptPiece>)
        ensures
            final(out)@.map_values(|p: PromptPiece| p@) == old(out)@.map_values(|p: PromptPiece| p@)
                + message_pieces(*self, m@),
    {
        let ghost start = out@.map_values(|p: PromptPiece| p@);
        proof {
            reveal_strlit("<|im_start|>");
            reveal_strlit("<|im_end|>");
            reveal_strlit("\n");
        }
        let skip = match &m.content {
            None => match m.role {
                Role::Assistant => match self {
                    PromptTemplate::Llama2 => true,
                    _ => false,
                },
                _ => true,
            },
            Some(_) => false,
        };
        if skip {
            assert(start + message_pieces(*self, m@) =~= start);
            return;
        }
        match self {
            PromptTemplate::ChatML => {
                push_piece(out, "<|im_start|>", true);
                push_piece(out, m.role.lowercase(), true);
                push_piece(out, "\n", true);
                if let Some(c) = &m.content {
                    push_piece(out, c.as_str(), false);
                    push_piece(out, "<|im_end|>", true);
                    push_piece(out, "\n", true);
                }
            },
            PromptTemplate::Llama2 => {
                if let Some(c) = &m.content {
                    match m.role {
                        Role::System => {
                            push_piece(out, "[INST]", true);
                            push_piece(out, "<<SYS>>", true);
                            push_piece(out, c.as_str(), false);
                            push_piece(out, "<</SYS>>", true);
                            push_piece(out, "[/INST]", true);
                            push_piece(out, "\n", true);
                        },
                        Role::User => {
                            push_piece(out, "[INST]", true);
                            push_piece(out, c.as_str(), false);
                            push_piece(out, "[/INST]", true);
                            push_piece(out, "\n", true);
                        },
                        Role::Assistant => {
                            push_piece(out, c.as_str(), false);
                            push_piece(out, "</s>", true);
                            push_piece(out, "\n", true);
                        },
                    }
                }
            },
            PromptTemplate::Llama3 => {
                push_piece(out, "<|start_header_id|>", true);
                push_piece(out, m.role.lowercase(), true);
                push_piece(out, "<|end_header_id|>", true);
                push_piece(out, "\n", true);
                push_piece(out, "\n", true);
                if let Some(c) = &m.content {
                    push_piece(out, c.as_str(), false);
                    push_piece(out, "<|eot_id|>", true);
                }
            },
            PromptTemplate::Custom(ct) => {
                match m.role {
                    Role::System => {
                        if let Some(c) = &m.content {
                            push_piece(out, ct.system_prefix.as_str(), true);
                            push_piece(out, c.as_str(), false);
                            push_piece(out, ct.system_suffix.as_str(), true);
                        }
                    },
                    Role::User => {
                        if let Some(c) = &m.content {
                            push_piece(out, ct.user_prefix.as_str(), true);
                            push_piece(out, c.as_str(), false);
                            push_piece(out, ct.user_suffix.as_str(), true);
                        }
                    },
                    Role::Assistant => {
                        push_piece(out, ct.assistant_prefix.as_str(), true);
                        if let Some(c) = &m.content {
                            push_piece(out, c.as_str(), false);
                            push_piece(out, ct.assistant_suffix.as_str(), true);
                        }
                    },
                }
            },
        }
        assert(out@.map_values(|p: PromptPiece| p@) =~= start + message_pieces(*self, m@));
    }

    /// The texts to tokenize, in order, for a prompt under this template (the
    /// model's beginning-of-stream token goes before them).
    pub fn layout(&self, prompt: &[Message]) -> (r: Vec<PromptPiece>)
        ensures
            r@.map_values(|p: PromptPiece| p@) == layout_spec(*self, prompt@.map_values(|m: Message| m@)),
    {
        let ghost msgs = prompt@.map_values(|m: Message| m@);
        let mut out: Vec<PromptPiece> = Vec::new();
        let n = prompt.len();
        let mut i: usize = 0;
        assert(out@.map_values(|p: PromptPiece| p@) =~= layout_spec(*self, msgs.take(0)));
        while i < n
            invariant
                n == prompt@.len(),
                msgs == prompt@.map_values(|m: Message| m@),
                i <= n,
                out@.map_values(|p: PromptPiece| p@) == layout_spec(*self, msgs.take(i as int)),
            decreases n - i,
        {
            self.message_to_pieces(&prompt[i], &mut out);
            assert(msgs.take(i + 1).drop_last() =~= msgs.take(i as int));
            i += 1;
        }
        assert(msgs.take(n as int) =~= msgs);
        out
    }
}

} // verus!
