//! The error taxonomy and its protocol-facing mapping.
//!
//! Every fallible store operation returns an error drawn from the closed
//! [`Error`] type.  A protocol front-end turns such an error into a remote
//! error identifier plus an optional human-readable description via
//! [`Error::dbus_error_name`] and [`Error::description`].
//!
//! Underlying failures from collaborators are carried as plain values: an
//! I/O failure carries the one distinction the taxonomy reads (not-found or
//! not), a transport failure carries the method-error description if there
//! is one, and an encryption-tool failure carries the tool's diagnostic
//! text.  The unverified shell around this library converts the concrete
//! library errors of its collaborators into these values.

use vstd::prelude::*;

verus! {

/// The kind of an underlying OS-level I/O failure, as far as the taxonomy
/// distinguishes it: a not-found failure maps to its own remote identifier,
/// every other kind maps to a generic I/O identifier.
#[derive(Debug, Clone, Copy, PartialEq, Eq, Structural)]
pub enum IoKind {
    NotFound,
    Other,
}

/// A failure of the persistent index, as far as the taxonomy distinguishes
/// it: a lookup may fail because the table-like structure has not been
/// created yet, which callers absorb gracefully, or for any other reason.
#[derive(Debug, Clone, Copy, PartialEq, Eq, Structural)]
pub enum IndexFault {
    MissingTable,
    Other,
}

/// The closed error type produced by every fallible operation of the store
/// and its collaborators.
#[derive(Debug, Clone)]
pub enum Error {
    /// An OS-level I/O failure, carrying its kind.
    IoError(IoKind),
    /// A transport failure, carrying the underlying method-error
    /// description if there is one.
    DbusError(Option<String>),
    /// A failure of the persistent index.
    RedbError,
    /// The encryption tool exited nonzero; carries its diagnostic text.
    GpgError(String),
    /// No recipient marker was found between the target directory and the
    /// store root.
    NotInitialized,
    /// The session presented by the protocol caller is not valid.
    InvalidSession,
    /// The caller is not allowed to perform the operation.
    PermissionDenied,
}

/// The remote error identifier each taxonomy variant maps to.
pub open spec fn dbus_error_name_spec(e: Error) -> Seq<char> {
    match e {
        Error::IoError(IoKind::NotFound) => "org.freedesktop.Secret.Error.NoSuchObject"@,
        Error::IoError(IoKind::Other) => "org.freedesktop.DBus.Error.IOError"@,
        Error::DbusError(_) => "org.freedesktop.zbus.Error"@,
        Error::RedbError => "me.grimsteel.PassSecretService.ReDBError"@,
        Error::GpgError(_) => "me.grimsteel.PassSecretService.GPGError"@,
        Error::NotInitialized => "me.grimsteel.PassSecretService.PassNotInitialized"@,
        Error::InvalidSession => "org.freedesktop.Secret.Error.NoSession"@,
        Error::PermissionDenied => "org.freedesktop.DBus.Error.AccessDenied"@,
    }
}

/// The optional human-readable description each taxonomy variant carries.
pub open spec fn description_spec(e: Error) -> Option<Seq<char>> {
    match e {
        Error::DbusError(Some(d)) => Some(d@),
        Error::DbusError(None) => None,
        Error::GpgError(m) => Some(m@),
        Error::NotInitialized => Some("Pass is not initialized"@),
        Error::PermissionDenied => Some("Access denied"@),
        _ => None,
    }
}

impl Error {
    /// The deterministic mapping from a taxonomy variant to its
    /// protocol-facing remote error identifier.
    pub fn dbus_error_name(&self) -> (r: String)
        ensures
            r@ == dbus_error_name_spec(*self),
    {
        match self {
            Error::IoError(IoKind::NotFound) => {
                String::from_str("org.freedesktop.Secret.Error.NoSuchObject")
            },
            Error::IoError(IoKind::Other) => String::from_str("org.freedesktop.DBus.Error.IOError"),
            Error::DbusError(_) => String::from_str("org.freedesktop.zbus.Error"),
            Error::RedbError => String::from_str("me.grimsteel.PassSecretService.ReDBError"),
            Error::GpgError(_) => String::from_str("me.grimsteel.PassSecretService.GPGError"),
            Error::NotInitialized => {
                String::from_str("me.grimsteel.PassSecretService.PassNotInitialized")
            },
            Error::InvalidSession => String::from_str("org.freedesktop.Secret.Error.NoSession"),
            Error::PermissionDenied => String::from_str("org.freedesktop.DBus.Error.AccessDenied"),
        }
    }

    /// The optional description accompanying the remote error identifier: a
    /// transport failure hands its method-error description on, a tool
    /// failure hands the tool's diagnostic text on, and the not-initialized
    /// and permission-denied variants carry a fixed text each.
    pub fn description(&self) -> (r: Option<String>)
        ensures
            r.deep_view() == description_spec(*self),
    {
        match self {
            Error::DbusError(Some(d)) => Some(d.clone()),
            Error::GpgError(m) => Some(m.clone()),
            Error::NotInitialized => Some(String::from_str("Pass is not initialized")),
            Error::PermissionDenied => Some(String::from_str("Access denied")),
            _ => None,
        }
    }
}

/// An I/O failure converts into the taxonomy directly, so call sites can
/// propagate it without hand-written wrapping.
impl From<IoKind> for Error {
    fn from(value: IoKind) -> (r: Self) {
        Error::IoError(value)
    }
}

impl vstd::std_specs::convert::FromSpecImpl<IoKind> for Error {
    open spec fn obeys_from_spec() -> bool {
        true
    }

    open spec fn from_spec(v: IoKind) -> Self {
        Error::IoError(v)
    }
}

/// A persistent-index failure converts into the taxonomy directly, so
/// call sites can propagate it without hand-written wrapping.
impl From<IndexFault> for Error {
    fn from(value: IndexFault) -> (r: Self) {
        Error::RedbError
    }
}

impl vstd::std_specs::convert::FromSpecImpl<IndexFault> for Error {
    open spec fn obeys_from_spec() -> bool {
        true
    }

    open spec fn from_spec(v: IndexFault) -> Self {
        Error::RedbError
    }
}

/// Folds a collaborator's result into the unified taxonomy, so call sites
/// can propagate with a single call rather than hand-written wrapping.
pub trait IntoResult<T>: Sized {
    /// What the fold produces.
    spec fn into_result_spec(self) -> Result<T, Error>;

    /// Performs the fold.
    fn into_result(self) -> (r: Result<T, Error>)
        ensures
            r == self.into_result_spec(),
    ;
}

impl<T> IntoResult<T> for Result<T, IndexFault> {
    /// Any persistent-index failure becomes the index variant of the
    /// taxonomy.
    open spec fn into_result_spec(self) -> Result<T, Error> {
        match self {
            Ok(t) => Ok(t),
            Err(_) => Err(Error::RedbError),
        }
    }

    fn into_result(self) -> (r: Result<T, Error>) {
        match self {
            Ok(t) => Ok(t),
            Err(_) => Err(Error::RedbError),
        }
    }
}

/// Converts an absent optional value into the not-found I/O error, so that
/// operations which model absence as an empty optional share one code path
/// with operations whose read genuinely failed.
pub trait OptionNoneNotFound<T>: Sized {
    /// What the conversion produces.
    spec fn into_not_found_spec(self) -> Result<T, Error>;

    /// Performs the conversion.
    fn into_not_found(self) -> (r: Result<T, Error>)
        ensures
            r == self.into_not_found_spec(),
    ;
}

impl<T> OptionNoneNotFound<T> for Option<T> {
    open spec fn into_not_found_spec(self) -> Result<T, Error> {
        match self {
            Some(t) => Ok(t),
            None => Err(Error::IoError(IoKind::NotFound)),
        }
    }

    fn into_not_found(self) -> (r: Result<T, Error>) {
        match self {
            Some(t) => Ok(t),
            None => Err(Error::IoError(IoKind::NotFound)),
        }
    }
}

/// Absorbs a missing table-like structure in the persistent index into the
/// not-found error, rather than surfacing it as index corruption; any other
/// index failure folds into the index variant as usual.
pub fn table_or_not_found<T>(r: Result<T, IndexFault>) -> (res: Result<T, Error>)
    ensures
        (match r {
            Ok(t) => res == Ok::<T, Error>(t),
            Err(IndexFault::MissingTable) => res == Err::<T, Error>(Error::IoError(IoKind::NotFound)),
            Err(IndexFault::Other) => res == Err::<T, Error>(Error::RedbError),
        }),
{
    match r {
        Ok(t) => Ok(t),
        Err(IndexFault::MissingTable) => Err(Error::IoError(IoKind::NotFound)),
        Err(IndexFault::Other) => Err(Error::RedbError),
    }
}

/// Absorbs a missing table-like structure in the persistent index into a
/// caller-supplied default, rather than surfacing it as index corruption;
/// any other index failure folds into the index variant as usual.
pub fn table_or_default<T>(r: Result<T, IndexFault>, default: Result<T, Error>) -> (res: Result<
    T,
    Error,
>)
    ensures
        (match r {
            Ok(t) => res == Ok::<T, Error>(t),
            Err(IndexFault::MissingTable) => res == default,
            Err(IndexFault::Other) => res == Err::<T, Error>(Error::RedbError),
        }),
{
    match r {
        Ok(t) => Ok(t),
        Err(IndexFault::MissingTable) => default,
        Err(IndexFault::Other) => Err(Error::RedbError),
    }
}

} // verus!
