//! The HTTP request methods the framework routes on.
use vstd::prelude::*;

verus! {

/// An HTTP request method.
///
/// The registration surface of the router covers `Get`, `Post`, `Put`,
/// `Patch` and `Delete`; the remaining methods can still arrive on a
/// connection and are dispatched like any other (usually to the not-found
/// path, since nothing registers them).
#[derive(Clone, Copy, PartialEq, Eq, Structural, Debug, Hash)]
pub enum Method {
    Get,
    Head,
    Post,
    Put,
    Delete,
    Connect,
    Options,
    Trace,
    Patch,
}

} // verus!
