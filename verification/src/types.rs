//! Plain application types: configuration and the small enums that describe
//! UI-side state. They carry no logic of their own; the cache and refresh
//! modules speak in terms of them.

use vstd::prelude::*;

verus! {

/// The persisted application configuration. The secret key and the wallet
/// URI are stored encrypted; this layer never sees them in the clear.
#[derive(Debug, Clone, PartialEq, Eq)]
pub struct Config {
    pub encrypted_secret_key: String,
    pub salt: String,
    pub encrypted_nwc_uri: Option<String>,
}

/// What a remote image is used for; decides the size it is scaled to.
#[derive(Clone, Copy, Debug, PartialEq, Eq, Structural)]
pub enum ImageKind {
    Avatar,
    ProfilePicture,
}

/// The in-memory mirror state of one remote image, keyed by its URL.
#[derive(Clone, Copy, Debug, PartialEq, Eq, Structural)]
pub enum ImageState {
    Loading,
    Loaded,
    Failed,
}

#[derive(Debug, PartialEq, Eq, Copy, Clone, Structural)]
pub enum ProfileSubView {
    Profile,
    Relays,
    Wallet,
}

#[derive(Debug, PartialEq, Eq, Copy, Clone, Structural)]
pub enum AppTab {
    Home,
    Profile,
    ArticleView,
}

#[derive(Debug, PartialEq, Eq, Copy, Clone, Structural)]
pub enum AppTheme {
    Light,
    Dark,
}

} // verus!
