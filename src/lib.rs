//! Capability authorization for sandboxed actor modules: extraction and
//! validation of signed capability grants, a registry of live instance
//! handles and identities, the per-call authorization decision, and a
//! generator provider that answers calls once they are authorized.

pub mod admission;
pub mod extras;
pub mod grant;
pub mod keyed;
pub mod policy;
pub mod registry;

pub use admission::{enforce_validation, Validation};
pub use extras::{
    random_reply, ExtrasProvider, GeneratorRequest, Operation, ProviderError, CAPABILITY_ID,
    OP_REQUEST_GUID, OP_REQUEST_RANDOM, OP_REQUEST_SEQUENCE,
};
pub use grant::{AuthError, EmbeddedToken, Grant};
pub use policy::{AllowAll, PolicyHook};
pub use registry::{AuthorizationContext, BindError, CallError};
