//! Capability providers: broker command families with a declared level of support, and the
//! stubs that answer a stable `unsupported` shape for platforms that do not offer them yet.

use vstd::prelude::*;

use crate::broker::{unsupported, unsupported_on, unsupported_spec};
use crate::json::Json;
use crate::text::{chars_of, has_prefix, starts_with};

verus! {

/// Capability availability.
#[derive(Clone, Copy, Debug, PartialEq, Eq, Structural)]
pub enum CapSupport {
    Full,
    Partial,
    Unsupported,
}

/// Whether `cmd` starts with `prefix`.
pub fn claims_prefix(cmd: &str, prefix: &str) -> (r: bool)
    ensures
        r == has_prefix(cmd@, prefix@),
{
    let c = chars_of(cmd);
    let p = chars_of(prefix);
    starts_with(&c, &p)
}

/// `dialog.*`, answered by the desktop host.
pub struct DialogProvider;

/// `notification.*`, answered by the desktop host.
pub struct NotificationProvider;

/// Persisted `store.*` (not the in-memory `state.*`), answered by the desktop host.
pub struct StoreProvider;

/// `webview.*` panes, answered by the desktop host where it can.
pub struct WebviewProvider;

impl DialogProvider {
    pub fn id(&self) -> (r: &'static str)
        ensures
            r@ == "dialog"@,
    {
        "dialog"
    }

    pub fn supported(&self) -> (r: CapSupport)
        ensures
            r == CapSupport::Full,
    {
        CapSupport::Full
    }

    /// Whether the provider is asked about `cmd` at all.
    pub fn claims(&self, cmd: &str) -> (r: bool)
        ensures
            r == has_prefix(cmd@, "dialog."@),
    {
        claims_prefix(cmd, "dialog.")
    }
}

impl NotificationProvider {
    pub fn id(&self) -> (r: &'static str)
        ensures
            r@ == "notification"@,
    {
        "notification"
    }

    pub fn supported(&self) -> (r: CapSupport)
        ensures
            r == CapSupport::Full,
    {
        CapSupport::Full
    }

    pub fn claims(&self, cmd: &str) -> (r: bool)
        ensures
            r == has_prefix(cmd@, "notification."@),
    {
        claims_prefix(cmd, "notification.")
    }
}

impl StoreProvider {
    pub fn id(&self) -> (r: &'static str)
        ensures
            r@ == "store"@,
    {
        "store"
    }

    pub fn supported(&self) -> (r: CapSupport)
        ensures
            r == CapSupport::Full,
    {
        CapSupport::Full
    }

    pub fn claims(&self, cmd: &str) -> (r: bool)
        ensures
            r == has_prefix(cmd@, "store."@),
    {
        claims_prefix(cmd, "store.")
    }
}

impl WebviewProvider {
    pub fn id(&self) -> (r: &'static str)
        ensures
            r@ == "webview"@,
    {
        "webview"
    }

    pub fn supported(&self) -> (r: CapSupport)
        ensures
            r == CapSupport::Partial,
    {
        CapSupport::Partial
    }

    pub fn claims(&self, cmd: &str) -> (r: bool)
        ensures
            r == has_prefix(cmd@, "webview."@),
    {
        claims_prefix(cmd, "webview.")
    }
}

/// A capability no platform offers yet: every command under `prefix` answers the stable
/// unsupported reply for `id_str`.
pub struct UnsupportedProvider {
    pub id_str: &'static str,
    pub prefix: &'static str,
}

impl UnsupportedProvider {
    pub fn id(&self) -> (r: &'static str)
        ensures
            r@ == self.id_str@,
    {
        self.id_str
    }

    pub fn supported(&self) -> (r: CapSupport)
        ensures
            r == CapSupport::Unsupported,
    {
        CapSupport::Unsupported
    }

    pub fn try_invoke(&self, cmd: &str) -> (r: Option<Result<Json, String>>)
        ensures
            has_prefix(cmd@, self.prefix@) ==> (r matches Some(Ok(v)) && v@ == unsupported_spec(
                self.id_str@,
                "current"@,
            )),
            !has_prefix(cmd@, self.prefix@) ==> r is None,
    {
        if claims_prefix(cmd, self.prefix) {
            Some(Ok(unsupported(self.id_str)))
        } else {
            None
        }
    }
}

/// Placeholder for future Windows capability backends (`ms.*`).
pub struct MsStubProvider;

impl MsStubProvider {
    pub fn id(&self) -> (r: &'static str)
        ensures
            r@ == "ms"@,
    {
        "ms"
    }

    pub fn supported(&self) -> (r: CapSupport)
        ensures
            r == CapSupport::Unsupported,
    {
        CapSupport::Unsupported
    }

    pub fn try_invoke(&self, cmd: &str) -> (r: Option<Result<Json, String>>)
        ensures
            has_prefix(cmd@, "ms."@) ==> (r matches Some(Ok(v)) && v@ == unsupported_spec(
                "ms"@,
                "windows"@,
            )),
            !has_prefix(cmd@, "ms."@) ==> r is None,
    {
        if claims_prefix(cmd, "ms.") {
            Some(Ok(unsupported_on("ms", "windows")))
        } else {
            None
        }
    }
}

/// Placeholder for future Linux capability backends (`lin.*`).
pub struct LinStubProvider;

impl LinStubProvider {
    pub fn id(&self) -> (r: &'static str)
        ensures
            r@ == "lin"@,
    {
        "lin"
    }

    pub fn supported(&self) -> (r: CapSupport)
        ensures
            r == CapSupport::Unsupported,
    {
        CapSupport::Unsupported
    }

    pub fn try_invoke(&self, cmd: &str) -> (r: Option<Result<Json, String>>)
        ensures
            has_prefix(cmd@, "lin."@) ==> (r matches Some(Ok(v)) && v@ == unsupported_spec(
                "lin"@,
                "linux"@,
            )),
            !has_prefix(cmd@, "lin."@) ==> r is None,
    {
        if claims_prefix(cmd, "lin.") {
            Some(Ok(unsupported_on("lin", "linux")))
        } else {
            None
        }
    }
}

} // verus!
