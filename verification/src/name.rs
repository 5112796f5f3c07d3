//! Names of agent instances.
use vstd::prelude::*;

verus! {

/// Why a text is not an instance name.
#[derive(Clone, Copy, Debug, PartialEq, Eq, Structural)]
pub enum NameError {
    /// It is empty.
    Empty,
    /// It holds a character that names may not hold.
    BadChar,
}

impl NameError {
    /// The text of the error.
    pub open spec fn text(self) -> Seq<char> {
        match self {
            NameError::Empty => "the name is empty"@,
            NameError::BadChar => "only a-z, 0-9, '-' and '_' are allowed"@,
        }
    }

    /// The text of the error.
    pub fn message(&self) -> (r: &'static str)
        ensures
            r@ == self.text(),
    {
        match self {
            NameError::Empty => "the name is empty",
            NameError::BadChar => "only a-z, 0-9, '-' and '_' are allowed",
        }
    }
}

/// Whether names may hold `c`.
pub open spec fn name_char(c: char) -> bool {
    ('a' <= c && c <= 'z') || ('0' <= c && c <= '9') || c == '-' || c == '_'
}

/// What is wrong with `text` as a name, if anything.
pub open spec fn name_fault(text: Seq<char>) -> Option<NameError> {
    if text.len() == 0 {
        Some(NameError::Empty)
    } else if exists|i: int| 0 <= i < text.len() && !name_char(#[trigger] text[i]) {
        Some(NameError::BadChar)
    } else {
        None
    }
}

/// The name of an agent instance: a non-empty text of name characters, so a
/// single plain path component.
#[derive(Debug, PartialEq, Eq, Hash, PartialOrd, Ord)]
pub struct InstanceName {
    text: String,
}

impl View for InstanceName {
    type V = Seq<char>;

    closed spec fn view(&self) -> Seq<char> {
        self.text@
    }
}

impl InstanceName {
    #[verifier::type_invariant]
    spec fn well_formed(self) -> bool {
        name_fault(self.text@) is None
    }

    /// The name with the given text, or what is wrong with the text.
    pub fn new(text: &str) -> (r: Result<Self, NameError>)
        ensures
            match r {
                Ok(name) => name@ == text@ && name_fault(text@) is None,
                Err(e) => name_fault(text@) == Some(e),
            },
    {
        if text.is_empty() {
            return Err(NameError::Empty);
        }
        for c in it: text.chars()
            invariant
                it.seq() == text@,
                forall|i: int| 0 <= i < it.index() ==> name_char(#[trigger] text@[i]),
        {
            assert(c == text@[it.index()]);
            if !(('a' <= c && c <= 'z') || ('0' <= c && c <= '9') || c == '-' || c == '_') {
                assert(!name_char(text@[it.index()]));
                return Err(NameError::BadChar);
            }
        }
        Ok(InstanceName { text: text.to_owned() })
    }

    /// The text of the name.
    pub fn as_str(&self) -> (r: &str)
        ensures
            r@ == self@,
            name_fault(self@) is None,
    {
        proof {
            use_type_invariant(self);
        }
        self.text.as_str()
    }

    /// The text of the name, owned.
    pub fn to_text(&self) -> (r: String)
        ensures
            r@ == self@,
    {
        self.text.clone()
    }

    /// Whether two names are the same.
    pub fn same(&self, other: &InstanceName) -> (r: bool)
        ensures
            r == (self@ == other@),
    {
        self.text == other.text
    }
}

impl Clone for InstanceName {
    fn clone(&self) -> (r: Self)
        ensures
            r == *self,
    {
        proof {
            use_type_invariant(self);
        }
        InstanceName { text: self.text.clone() }
    }
}

/// A name is never empty, holds small letters, digits, dashes and underscores and nothing else, and
/// so has no separator, no dot, no space and no capital letter in it.
pub proof fn law_a_name_is_one_plain_component(text: Seq<char>, c: char, i: int)
    requires
        name_fault(text) is None,
    ensures
        text.len() > 0,
        0 <= i < text.len() ==> text[i] != '/' && text[i] != '\\' && text[i] != '.' && text[i]
            != ' ' && !('A' <= text[i] && text[i] <= 'Z') && (text[i] as u32) < 128,
        'a' <= c && c <= 'z' || '0' <= c && c <= '9' || c == '-' || c == '_' ==> name_fault(
            text.push(c),
        ) is None && name_fault(seq![c]) is None,
        !('a' <= c && c <= 'z' || '0' <= c && c <= '9' || c == '-' || c == '_') ==> name_fault(
            text.push(c),
        ) == Some(NameError::BadChar) && name_fault(seq![c]) == Some(NameError::BadChar),
        name_fault(Seq::empty()) == Some(NameError::Empty),
{
    if 0 <= i < text.len() {
        assert(name_char(text[i]));
    }
    if !('a' <= c && c <= 'z' || '0' <= c && c <= '9' || c == '-' || c == '_') {
        assert(!name_char(text.push(c)[text.len() as int]));
        assert(!name_char(seq![c][0]));
    } else {
        assert forall|j: int| 0 <= j < text.push(c).len() implies name_char(
            #[trigger] text.push(c)[j],
        ) by {
            if j < text.len() {
                assert(name_char(text[j]));
            }
        }
    }
}

} // verus!
