//! Accounts, roles, permissions, sessions and tokens.

pub mod accounts;
pub mod error;
pub mod inputs;
pub mod login;
pub mod password;
pub mod permissions;
pub mod random;
pub mod roles;
pub mod session;
pub mod session_store;
pub mod token;

pub use accounts::{
    AccountListItem, ApiTokenListItem, AuditFilterOption, AuditLogItem, RoleListItem, RoleOption,
    SessionListItem,
};
pub use error::AuthError;
pub use inputs::AuditLogFilter;
pub use login::{ApiTokenAuthSession, CreatedApiToken};
pub use permissions::{
    all_permissions, nav_permission, permission_dependencies, PermissionDef,
    PermissionResourceType, PermissionView,
};
pub use session::{AuthAccount, AuthResult, CurrentSession, LoginInput, SessionTokens};
pub use session_store::{MemorySessionStore, SessionSnapshot};
