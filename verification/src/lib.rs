//! Verified reconciliation core of an ingress auto-TLS controller.
//!
//! The controller watches ingress objects and converges each one toward a
//! state derived from two annotations on it: `autotls/domain` appends a
//! domain to every bare host name, and `autotls/issuer` wires up TLS. This
//! crate holds the decisions: the two patch computations, the step function
//! that sequences them for one object, and the requeue policy. It performs no
//! I/O; the caller watches, writes and logs.

pub mod annotations;
pub mod domain;
pub mod error;
pub mod model;
pub mod reconciler;
pub mod text;
pub mod tls;

pub use annotations::{Annotation, Annotations};
pub use domain::patch_domain;
pub use error::{Error, ObjectKey, StructuralError};
pub use model::{IngressResource, IngressSpec, Rule, TlsBlock};
pub use reconciler::{
    error_policy, reconcile, Action, Directive, Event, PatchRequest, Skip, Stage,
    REQUEUE_AFTER_FAILURE_SECS, REQUEUE_AFTER_SUCCESS_SECS,
};
pub use tls::patch_tls;
