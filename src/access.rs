use vstd::prelude::*;

verus! {

/// The chats the relay serves.
#[derive(Clone, Debug, Default, PartialEq, Eq)]
pub struct AllowList {
    pub allowed_ids: Vec<i64>,
}

impl AllowList {
    /// Whether messages from `chat_id` reach the relay.
    pub fn permits(&self, chat_id: i64) -> (r: bool)
        ensures
            r == self.allowed_ids@.contains(chat_id),
    {
        let mut i: usize = 0;
        while i < self.allowed_ids.len()
            invariant
                i <= self.allowed_ids@.len(),
                forall|j: int| 0 <= j < i ==> self.allowed_ids@[j] != chat_id,
            decreases self.allowed_ids.len() - i,
        {
            if self.allowed_ids[i] == chat_id {
                return true;
            }
            i = i + 1;
        }
        false
    }
}

} // verus!
