//! The error type shared by every component.

use vstd::prelude::*;
use vstd::string::StringExecFns;

verus! {

/// What went wrong, by the component that failed, with a detail text.
#[derive(Debug, Clone, PartialEq, Eq)]
pub enum CompositorError {
    Backend(String),
    Renderer(String),
    Socket(String),
    EventLoop(String),
}

impl CompositorError {
    /// The detail text carried by the error.
    pub open spec fn detail(&self) -> Seq<char> {
        match self {
            CompositorError::Backend(s) => s@,
            CompositorError::Renderer(s) => s@,
            CompositorError::Socket(s) => s@,
            CompositorError::EventLoop(s) => s@,
        }
    }

    /// The fixed text that introduces the detail, by variant.
    pub open spec fn prefix(&self) -> Seq<char> {
        match self {
            CompositorError::Backend(_) => "backend initialization failed: "@,
            CompositorError::Renderer(_) => "renderer creation failed: "@,
            CompositorError::Socket(_) => "wayland socket creation failed: "@,
            CompositorError::EventLoop(_) => "event loop error: "@,
        }
    }

    /// The full text shown to a user: prefix, then detail.
    pub open spec fn text(&self) -> Seq<char> {
        self.prefix() + self.detail()
    }

    /// Whether this is a backend error whose detail is `detail`.
    pub open spec fn is_backend(&self, detail: Seq<char>) -> bool {
        self is Backend && self.detail() == detail
    }

    /// A backend error whose detail is `detail`.
    pub fn backend_text(detail: &str) -> (e: CompositorError)
        ensures
            e.is_backend(detail@),
    {
        CompositorError::Backend(detail.to_owned())
    }

    /// A backend error whose detail is `head` followed by `tail`.
    pub fn backend(head: &str, tail: &str) -> (e: CompositorError)
        ensures
            e.is_backend(head@ + tail@),
    {
        let mut s: String = head.to_owned();
        s.append(tail);
        CompositorError::Backend(s)
    }

    /// Renders the error as text.
    pub fn message(&self) -> (s: String)
        ensures
            s@ == self.text(),
    {
        match self {
            CompositorError::Backend(d) => "backend initialization failed: ".to_owned().concat(
                d.as_str(),
            ),
            CompositorError::Renderer(d) => "renderer creation failed: ".to_owned().concat(
                d.as_str(),
            ),
            CompositorError::Socket(d) => "wayland socket creation failed: ".to_owned().concat(
                d.as_str(),
            ),
            CompositorError::EventLoop(d) => "event loop error: ".to_owned().concat(d.as_str()),
        }
    }
}

} // verus!
