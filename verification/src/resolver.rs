//! Trusted access to the package specifier resolver.
//!
//! The resolver materializes a bare specifier into a file on disk, applying
//! the package `exports` conditions it is configured with. Its answers
//! depend on the filesystem, so nothing is promised of them; the caller
//! canonicalizes and records whatever comes back.

use vstd::prelude::*;

verus! {

/// The resolver type of the oxc resolver crate, opaque to the library.
#[verifier::external_type_specification]
#[verifier::external_body]
#[verifier::reject_recursive_types(Fs)]
pub struct ExResolverGeneric<Fs>(oxc_resolver::ResolverGeneric<Fs>);

/// The resolver's standard filesystem backend, opaque to the library.
#[verifier::external_type_specification]
#[verifier::external_body]
pub struct ExFileSystemOs(oxc_resolver::FileSystemOs);

/// Relies on `oxc_resolver::Resolver::new`: builds a resolver that applies
/// exactly the given condition names when it reads a package's `exports`.
#[verifier::external_body]
pub(crate) fn build_resolver(condition_names: Vec<String>) -> oxc_resolver::Resolver {
    oxc_resolver::Resolver::new(oxc_resolver::ResolveOptions {
        condition_names,
        ..oxc_resolver::ResolveOptions::default()
    })
}

/// Relies on `oxc_resolver::Resolver::resolve`: resolves `specifier` against
/// `base` and, on success, reports the target's full path together with the
/// real path of the consulted `package.json`, if one was consulted. Paths
/// that are not valid UTF-8 are reported as failure or absence.
#[verifier::external_body]
pub(crate) fn resolve_specifier(resolver: &oxc_resolver::Resolver, base: &str, specifier: &str) -> Result<
    (String, Option<String>),
    (),
> {
    match resolver.resolve(base, specifier) {
        Err(_) => Err(()),
        Ok(resolution) => {
            let pkg = resolution.package_json().and_then(
                |p| p.realpath.clone().into_os_string().into_string().ok(),
            );
            match resolution.full_path().into_os_string().into_string() {
                Ok(full) => Ok((full, pkg)),
                Err(_) => Err(()),
            }
        },
    }
}

} // verus!
