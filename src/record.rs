use std::convert::Infallible;
use vstd::prelude::*;

verus! {

/// Who authored a message.
#[derive(Clone, Copy, Debug, PartialEq, Eq, Structural)]
pub enum Role {
    User,
    System,
    Assistant,
}

/// One role-tagged unit of text.
#[derive(Clone, Debug)]
pub struct Message {
    pub role: Role,
    pub content: String,
}

/// What a message is, mathematically: its role and its characters.
pub struct MessageView {
    pub role: Role,
    pub content: Seq<char>,
}

impl View for Message {
    type V = MessageView;

    open spec fn view(&self) -> MessageView {
        MessageView { role: self.role, content: self.content@ }
    }
}

impl Message {
    pub fn new(role: Role, content: String) -> (r: Message)
        ensures
            r.role == role,
            r.content@ == content@,
    {
        Message { role, content }
    }

    pub fn system(content: String) -> (r: Message)
        ensures
            r.role == Role::System,
            r.content@ == content@,
    {
        Message { role: Role::System, content }
    }
}

/// The shared state that a pipeline threads through its agents.
///
/// `push` is the one entry point through which agents change a record. A
/// push either succeeds, and the record then stands in the `pushed` relation
/// to what it was, or fails and leaves the record exactly as it was.
pub trait Record: Sized {
    type Error;

    /// The pushes that the record promises to take.
    spec fn accepts(&self, role: Role, content: Seq<char>) -> bool;

    /// `after` is what an accepted push of `content` under `role` may leave.
    spec fn pushed(&self, role: Role, content: Seq<char>, after: Self) -> bool;

    fn push(&mut self, role: Role, content: String) -> (r: Result<(), Self::Error>)
        ensures
            old(self).accepts(role, content@) ==> r is Ok,
            r is Ok ==> old(self).pushed(role, content@, *final(self)),
            r is Err ==> *final(self) == *old(self),
    ;

    /// Pushes a prebuilt message: its content under its role.
    fn push_message(&mut self, message: Message) -> (r: Result<(), Self::Error>)
        ensures
            old(self).accepts(message.role, message.content@) ==> r is Ok,
            r is Ok ==> old(self).pushed(message.role, message.content@, *final(self)),
            r is Err ==> *final(self) == *old(self),
    {
        self.push(message.role, message.content)
    }
}

/// A chat transcript: the messages in the order in which they were pushed.
#[derive(Clone, Debug)]
pub struct ChatRecord {
    messages: Vec<Message>,
}

impl View for ChatRecord {
    type V = Seq<MessageView>;

    closed spec fn view(&self) -> Seq<MessageView> {
        self.messages@.map_values(|m: Message| m@)
    }
}

impl ChatRecord {
    pub fn new() -> (r: ChatRecord)
        ensures
            r@ == Seq::<MessageView>::empty(),
    {
        let r = ChatRecord { messages: Vec::new() };
        assert(r@ =~= Seq::<MessageView>::empty());
        r
    }

    pub fn messages(&self) -> (r: &[Message])
        ensures
            r@.map_values(|m: Message| m@) == self@,
    {
        self.messages.as_slice()
    }
}

impl Default for ChatRecord {
    fn default() -> (r: ChatRecord)
        ensures
            r@ == Seq::<MessageView>::empty(),
    {
        ChatRecord::new()
    }
}

impl Record for ChatRecord {
    type Error = Infallible;

    open spec fn accepts(&self, role: Role, content: Seq<char>) -> bool {
        true
    }

    open spec fn pushed(&self, role: Role, content: Seq<char>, after: ChatRecord) -> bool {
        after@ == self@.push(MessageView { role, content })
    }

    fn push(&mut self, role: Role, content: String) -> (r: Result<(), Infallible>) {
        self.push_message(Message::new(role, content))
    }

    fn push_message(&mut self, message: Message) -> (r: Result<(), Infallible>) {
        let ghost before = self@;
        self.messages.push(message);
        assert(self@ =~= before.push(message@));
        Ok(())
    }
}

} // verus!
