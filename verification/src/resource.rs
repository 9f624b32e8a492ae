//! The lifecycle of an asynchronously loaded value: loading, then ready
//! with a value or failed with a message. A reactive handle holds one of
//! these in a signal so views re-render when it changes.

use vstd::prelude::*;

verus! {

/// The lifecycle state of an asynchronously loaded value.
#[derive(Debug, Clone, PartialEq, Eq)]
pub enum ResourceState<T> {
    /// The loader has not completed yet.
    Loading,
    /// The loader succeeded with a value.
    Ready(T),
    /// The loader failed with a message.
    Error(String),
}

impl<T> ResourceState<T> {
    /// The state a finished loader leaves: its value, or its error message.
    pub fn from_result(result: Result<T, String>) -> (r: ResourceState<T>)
        ensures
            match result {
                Ok(v) => r == ResourceState::Ready(v),
                Err(e) => r == ResourceState::<T>::Error(e),
            },
    {
        match result {
            Ok(v) => ResourceState::Ready(v),
            Err(e) => ResourceState::Error(e),
        }
    }

    /// `true` while the loader has not completed.
    pub fn is_loading(&self) -> (r: bool)
        ensures
            r == self is Loading,
    {
        match self {
            ResourceState::Loading => true,
            _ => false,
        }
    }

    /// `true` once the loader has succeeded.
    pub fn is_ready(&self) -> (r: bool)
        ensures
            r == self is Ready,
    {
        match self {
            ResourceState::Ready(_) => true,
            _ => false,
        }
    }

    /// `true` if the loader failed.
    pub fn is_error(&self) -> (r: bool)
        ensures
            r == self is Error,
    {
        match self {
            ResourceState::Error(_) => true,
            _ => false,
        }
    }
}

impl<T: Clone> ResourceState<T> {
    /// The ready value, or `None` while loading or after a failure.
    pub fn ready_value(&self) -> (r: Option<T>)
        ensures
            match *self {
                ResourceState::Ready(v) => r matches Some(x) && cloned(v, x),
                _ => r is None,
            },
    {
        match self {
            ResourceState::Ready(v) => Some(v.clone()),
            _ => None,
        }
    }
}

} // verus!
