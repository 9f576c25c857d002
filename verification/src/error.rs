//! The ways in which pulling an image or running a container can fail.

use vstd::prelude::*;
use vstd::string::*;
use crate::text::{concat2, decimal, push_decimal, Text};

verus! {

/// Why an operation of the engine was refused or failed.
#[derive(Debug, Clone, Copy, PartialEq, Eq, Structural)]
pub enum Error {
    /// A challenge header does not follow the grammar.
    MalformedChallenge,
    /// A challenge asks for a scheme other than `Bearer`.
    AuthSchemeUnsupported,
    /// The token endpoint is unknown, answered outside 2xx, or sent no token.
    TokenExchangeFailed,
    /// A manifest list whose schema version is not 2.
    UnsupportedManifestSchema,
    /// No entry of the manifest list is for the running architecture.
    NoMatchingPlatform,
    /// The chosen entry names a media type that is neither of the two known ones.
    UnsupportedMediaType,
    /// A layer could not be downloaded or stored.
    LayerFetchFailed,
    /// The overlay could not be mounted, even after the tmpfs fallback.
    RootFsAssemblyFailed,
    /// The container is held by the live process with this pid.
    ContainerBusy(usize),
    /// Entering a namespace failed with this code.
    NamespaceSetupFailed(i32),
    /// The command could not be started, or ended without an exit code.
    ExecFailed,
}

/// What is said of a malformed challenge.
pub const MALFORMED_CHALLENGE: &'static str = "the registry sent a malformed challenge";

/// What is said of a scheme other than `Bearer`.
pub const AUTH_SCHEME_UNSUPPORTED: &'static str = "the registry asks for a scheme other than Bearer";

/// What is said of a token exchange that failed.
pub const TOKEN_EXCHANGE_FAILED: &'static str = "the token endpoint gave no token";

/// What is said of a manifest list with another schema version.
pub const UNSUPPORTED_MANIFEST_SCHEMA: &'static str =
    "the manifest list has a schema version other than 2";

/// What is said where no manifest is for the architecture.
pub const NO_MATCHING_PLATFORM: &'static str = "the image has no manifest for this architecture";

/// What is said of an unknown media type.
pub const UNSUPPORTED_MEDIA_TYPE: &'static str = "the manifest has an unknown media type";

/// What is said of a layer that could not be fetched.
pub const LAYER_FETCH_FAILED: &'static str = "a layer could not be fetched";

/// What is said where the overlay could not be mounted.
pub const ROOT_FS_ASSEMBLY_FAILED: &'static str = "the root file system could not be mounted";

/// What is said of a command that did not run to its end.
pub const EXEC_FAILED: &'static str = "the command could not be run to its end";

/// The decimal digits of a number, with a minus sign before a negative one.
pub open spec fn signed_decimal(n: int) -> Text {
    if n < 0 {
        "-"@ + decimal((-n) as nat)
    } else {
        decimal(n as nat)
    }
}

/// The decimal digits of `n`, with a minus sign before a negative number.
pub fn i32_to_decimal(n: i32) -> (r: String)
    ensures
        r@ == signed_decimal(n as int),
{
    let wide = n as i64;
    if wide < 0 {
        let mut r = "-".to_owned();
        push_decimal(&mut r, (-wide) as usize);
        r
    } else {
        let mut r = String::new();
        push_decimal(&mut r, wide as usize);
        assert(r@ =~= decimal(n as nat));
        r
    }
}

impl Error {
    /// What the user is told about this error.
    pub open spec fn message_spec(self) -> Text {
        match self {
            Error::MalformedChallenge => MALFORMED_CHALLENGE@,
            Error::AuthSchemeUnsupported => AUTH_SCHEME_UNSUPPORTED@,
            Error::TokenExchangeFailed => TOKEN_EXCHANGE_FAILED@,
            Error::UnsupportedManifestSchema => UNSUPPORTED_MANIFEST_SCHEMA@,
            Error::NoMatchingPlatform => NO_MATCHING_PLATFORM@,
            Error::UnsupportedMediaType => UNSUPPORTED_MEDIA_TYPE@,
            Error::LayerFetchFailed => LAYER_FETCH_FAILED@,
            Error::RootFsAssemblyFailed => ROOT_FS_ASSEMBLY_FAILED@,
            Error::ContainerBusy(pid) => "process "@ + decimal(pid as nat)
                + " may still be running; use --force"@,
            Error::NamespaceSetupFailed(code) => "entering the namespaces failed with code "@
                + signed_decimal(code as int),
            Error::ExecFailed => EXEC_FAILED@,
        }
    }

    /// What the user is told about this error.
    pub fn message(&self) -> (r: String)
        ensures
            r@ == self.message_spec(),
    {
        match self {
            Error::MalformedChallenge => MALFORMED_CHALLENGE.to_owned(),
            Error::AuthSchemeUnsupported => AUTH_SCHEME_UNSUPPORTED.to_owned(),
            Error::TokenExchangeFailed => TOKEN_EXCHANGE_FAILED.to_owned(),
            Error::UnsupportedManifestSchema => UNSUPPORTED_MANIFEST_SCHEMA.to_owned(),
            Error::NoMatchingPlatform => NO_MATCHING_PLATFORM.to_owned(),
            Error::UnsupportedMediaType => UNSUPPORTED_MEDIA_TYPE.to_owned(),
            Error::LayerFetchFailed => LAYER_FETCH_FAILED.to_owned(),
            Error::RootFsAssemblyFailed => ROOT_FS_ASSEMBLY_FAILED.to_owned(),
            Error::ContainerBusy(pid) => {
                let mut r = "process ".to_owned();
                push_decimal(&mut r, *pid);
                r.append(" may still be running; use --force");
                r
            },
            Error::NamespaceSetupFailed(code) => {
                let number = i32_to_decimal(*code);
                concat2("entering the namespaces failed with code ", number.as_str())
            },
            Error::ExecFailed => EXEC_FAILED.to_owned(),
        }
    }

    /// The exit status with which the process ends on this error: the code
    /// of the failure for a namespace that could not be entered, 1 for
    /// everything else, and never 0.
    pub open spec fn exit_code_spec(self) -> i32 {
        match self {
            Error::NamespaceSetupFailed(code) => if code != 0 {
                code
            } else {
                1
            },
            _ => 1,
        }
    }

    /// The exit status with which the process ends on this error.
    pub fn exit_code(&self) -> (r: i32)
        ensures
            r == self.exit_code_spec(),
            r != 0,
    {
        match self {
            Error::NamespaceSetupFailed(code) => {
                if *code != 0 {
                    *code
                } else {
                    1
                }
            },
            _ => 1,
        }
    }
}

} // verus!
