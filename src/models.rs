use vstd::prelude::*;

verus! {

/// One entry of the vocabulary: an identifier given by the persistence
/// layer, the acronym itself, the pattern that detects it and what it means.
pub struct Acronym {
    pub id: i32,
    pub key: String,
    pub regex: String,
    pub value: String,
}

/// The mathematical value of an [`Acronym`].
pub ghost struct AcronymView {
    pub id: i32,
    pub key: Seq<char>,
    pub regex: Seq<char>,
    pub value: Seq<char>,
}

impl View for Acronym {
    type V = AcronymView;

    open spec fn view(&self) -> AcronymView {
        AcronymView { id: self.id, key: self.key@, regex: self.regex@, value: self.value@ }
    }
}

impl Acronym {
    /// A field-by-field copy.
    pub fn copied(&self) -> (r: Acronym)
        ensures
            r@ == self@,
    {
        Acronym {
            id: self.id,
            key: self.key.clone(),
            regex: self.regex.clone(),
            value: self.value.clone(),
        }
    }

    /// The acronym after an edit: each given field replaces the old one, the
    /// identifier never changes.
    pub fn edited(&self, key: Option<String>, regex: Option<String>, value: Option<String>) -> (r:
        Acronym)
        ensures
            r.id == self.id,
            r.key@ == (match key {
                Some(k) => k@,
                None => self.key@,
            }),
            r.regex@ == (match regex {
                Some(p) => p@,
                None => self.regex@,
            }),
            r.value@ == (match value {
                Some(v) => v@,
                None => self.value@,
            }),
    {
        let key = match key {
            Some(k) => k,
            None => self.key.clone(),
        };
        let regex = match regex {
            Some(p) => p,
            None => self.regex.clone(),
        };
        let value = match value {
            Some(v) => v,
            None => self.value.clone(),
        };
        Acronym { id: self.id, key, regex, value }
    }
}

/// A message of the stream: its identifier, the thread it belongs to, its
/// author and its text.
pub struct Message {
    pub id: String,
    pub thread_id: String,
    pub author: String,
    pub body: String,
}

/// The mathematical value of a [`Message`].
pub ghost struct MessageView {
    pub id: Seq<char>,
    pub thread_id: Seq<char>,
    pub author: Seq<char>,
    pub body: Seq<char>,
}

impl View for Message {
    type V = MessageView;

    open spec fn view(&self) -> MessageView {
        MessageView {
            id: self.id@,
            thread_id: self.thread_id@,
            author: self.author@,
            body: self.body@,
        }
    }
}

/// A detection of one acronym in one message, and the form in which it is
/// recorded: the thread, the message and the acronym's identifier are its
/// key.
pub struct Occurance {
    pub thread_id: String,
    pub comment_id: String,
    pub acronym_id: i32,
}

impl View for Occurance {
    type V = (Seq<char>, Seq<char>, i32);

    open spec fn view(&self) -> (Seq<char>, Seq<char>, i32) {
        (self.thread_id@, self.comment_id@, self.acronym_id)
    }
}

impl Occurance {
    /// Whether two detections have the same key.
    pub fn same_key(&self, other: &Occurance) -> (r: bool)
        ensures
            r == (self@ == other@),
    {
        self.acronym_id == other.acronym_id && self.thread_id == other.thread_id
            && self.comment_id == other.comment_id
    }

    /// A field-by-field copy.
    pub fn copied(&self) -> (r: Occurance)
        ensures
            r@ == self@,
    {
        Occurance {
            thread_id: self.thread_id.clone(),
            comment_id: self.comment_id.clone(),
            acronym_id: self.acronym_id,
        }
    }
}

} // verus!
