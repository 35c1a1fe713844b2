//! What can go wrong on the bridge.

use vstd::prelude::*;

verus! {

/// A failure that a host caller can recover from.
#[derive(Debug, Clone, PartialEq, Eq)]
pub enum BridgeError {
    /// The native side reported a failure; the text is its message.
    Invoke(String),
    /// A wire payload does not have the expected shape.
    Decode,
}

/// The mathematical value of a [`BridgeError`].
pub enum BridgeErrorView {
    Invoke(Seq<char>),
    Decode,
}

impl View for BridgeError {
    type V = BridgeErrorView;

    open spec fn view(&self) -> BridgeErrorView {
        match self {
            BridgeError::Invoke(message) => BridgeErrorView::Invoke(message@),
            BridgeError::Decode => BridgeErrorView::Decode,
        }
    }
}

impl BridgeErrorView {
    /// The text that describes the failure.
    pub open spec fn message(self) -> Seq<char> {
        match self {
            BridgeErrorView::Invoke(message) => message,
            BridgeErrorView::Decode => "the wire payload does not have the expected shape"@,
        }
    }
}

impl BridgeError {
    /// Whether the failure was reported by the native side.
    pub fn is_invoke(&self) -> (invoke: bool)
        ensures
            invoke == (self@ is Invoke),
    {
        match self {
            BridgeError::Invoke(_) => true,
            BridgeError::Decode => false,
        }
    }

    /// The text that describes the failure: the native side's own message,
    /// or a fixed text for a payload that could not be decoded.
    pub fn message(&self) -> (text: String)
        ensures
            text@ == self@.message(),
    {
        match self {
            BridgeError::Invoke(message) => message.clone(),
            BridgeError::Decode => "the wire payload does not have the expected shape".to_owned(),
        }
    }
}

} // verus!
