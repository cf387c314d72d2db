//! Session and authentication core for a stateless OAuth2 web service.
//!
//! The library carries a user's bearer token and single enabled-repository
//! marker across stateless requests in tamper-evident signed cookies, builds
//! the provider authorization URL, and reconciles a bounded page of provider
//! repositories against the stored enablement marker.

pub mod flow;
pub mod oauth;
pub mod reconcile;
pub mod session;
pub mod signing;
pub mod store;

pub use flow::AuthError;
pub use flow::AuthEvent;
pub use flow::AuthFlowState;
pub use flow::RepoRouteAction;
pub use flow::apply_callback;
pub use flow::enablement_route;
pub use flow::next_state;
pub use flow::protected_route_redirect;
pub use flow::repos_route;
pub use oauth::Config;
pub use oauth::ConfigError;
pub use oauth::build_authorization_url;
pub use oauth::join_scopes;
pub use oauth::normalize_code;
pub use reconcile::PAGE_CAP;
pub use reconcile::RepoRow;
pub use reconcile::RepoSummary;
pub use reconcile::page_of;
pub use reconcile::reconcile;
pub use session::Session;
pub use session::SessionView;
pub use signing::MIN_SIGNING_KEY_LEN;
pub use store::load_session;
pub use store::save_session;
