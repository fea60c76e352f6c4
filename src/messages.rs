use vstd::prelude::*;

verus! {

/// An intent collected while a frame is drawn and carried out after it.
#[derive(Clone, Copy, Debug, PartialEq, Eq, Structural)]
pub enum Message {
    Quit,
}

/// The intents of one frame, in the order they were raised.
pub struct Messages {
    pub messages: Vec<Message>,
}

impl Messages {
    pub fn new() -> (r: Self)
        ensures
            r.messages@ == Seq::<Message>::empty(),
    {
        Messages { messages: Vec::new() }
    }

    pub fn add(&mut self, msg: Message)
        ensures
            final(self).messages@ == old(self).messages@.push(msg),
    {
        self.messages.push(msg);
    }
}

} // verus!
