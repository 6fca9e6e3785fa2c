//! The items an application of the framework usually needs.
pub use crate::method::Method;
pub use crate::middleware::{Guard, HeaderStamp, MiddleWare};
pub use crate::recognizer::{Match, Params};
pub use crate::request::Request;
pub use crate::response::Response;
pub use crate::routegroup::RouteGroup;
pub use crate::router::Router;
pub use crate::service::{ArcHandler, ArcService, HandlerKind, TextService};
