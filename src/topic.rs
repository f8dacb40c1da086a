//! Topics: the name and type under which data is published and subscribed.

use vstd::prelude::*;

verus! {

/// Why a topic could not be created.
#[derive(Clone, Copy, Debug, PartialEq, Eq, Structural)]
pub enum TopicError {
    /// Another topic has the same name and other characteristics.
    InconsistentTopic,
}

impl TopicError {
    /// The text that describes the error.
    pub fn message(&self) -> (r: String)
        ensures
            *self == TopicError::InconsistentTopic ==> r@
                == "another topic exists with the same name but different characteristics"@,
    {
        match self {
            TopicError::InconsistentTopic => String::from_str(
                "another topic exists with the same name but different characteristics",
            ),
        }
    }
}

/// The name of a topic and the name of the type of its data.
#[derive(Debug, PartialEq, PartialOrd, Hash, Eq, Ord)]
pub struct TopicDescription {
    data_type: String,
    name: String,
}

impl TopicDescription {
    pub closed spec fn data_type_spec(&self) -> Seq<char> {
        self.data_type@
    }

    pub closed spec fn name_spec(&self) -> Seq<char> {
        self.name@
    }

    pub fn new(data_type: &str, name: &str) -> (r: Self)
        ensures
            r.data_type_spec() == data_type@,
            r.name_spec() == name@,
    {
        Self { data_type: String::from_str(data_type), name: String::from_str(name) }
    }

    pub fn get_type_name(&self) -> (r: &str)
        ensures
            r@ == self.data_type_spec(),
    {
        self.data_type.as_str()
    }

    pub fn get_name(&self) -> (r: &str)
        ensures
            r@ == self.name_spec(),
    {
        self.name.as_str()
    }
}

/// A topic: a description whose name is unique in the whole domain.
#[derive(Debug, PartialEq, PartialOrd, Hash, Eq, Ord)]
pub struct Topic {
    pub description: TopicDescription,
}

/// A subscription to the values of a topic that satisfy a filter.
#[derive(Debug, PartialEq, PartialOrd, Hash, Eq, Ord)]
pub struct ContentFilteredTopic {
    pub filter_expression: String,
}

/// A subscription that combines the data of several topics.
#[derive(Debug, PartialEq, PartialOrd, Hash, Eq, Ord)]
pub struct MultiTopic {
    pub subscription_expression: String,
}

} // verus!
