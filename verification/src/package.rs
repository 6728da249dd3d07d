//! Identity of remotely fetched package bundles and the registry URL scheme.
use vstd::prelude::*;
use vstd::string::*;

verus! {

/// Mathematical view of a package identity: its three identity strings.
pub ghost struct PackageView {
    pub name: Seq<char>,
    pub namespace: Seq<char>,
    pub version: Seq<char>,
}

/// Identity of a versioned, namespaced package bundle. Used as the cache key
/// of the package resolver; two identities address the same package exactly
/// when all three fields agree, wherever the identity came from.
#[derive(Debug)]
pub struct TypstCorePackage {
    pub name: String,
    pub namespace: String,
    pub version: String,
}

impl View for TypstCorePackage {
    type V = PackageView;

    open spec fn view(&self) -> PackageView {
        PackageView { name: self.name@, namespace: self.namespace@, version: self.version@ }
    }
}

impl Clone for TypstCorePackage {
    fn clone(&self) -> (r: Self)
        ensures
            r@ == self@,
    {
        TypstCorePackage {
            name: self.name.clone(),
            namespace: self.namespace.clone(),
            version: self.version.clone(),
        }
    }
}

impl PartialEq for TypstCorePackage {
    fn eq(&self, other: &Self) -> (r: bool) {
        self.name == other.name && self.namespace == other.namespace && self.version
            == other.version
    }
}

impl vstd::std_specs::cmp::PartialEqSpecImpl for TypstCorePackage {
    open spec fn obeys_eq_spec() -> bool {
        true
    }

    open spec fn eq_spec(&self, other: &Self) -> bool {
        self@ == other@
    }
}

/// The registry URL from which the archive of the given package is fetched.
pub open spec fn spec_package_url(pkg: PackageView) -> Seq<char> {
    "https://packages.typst.org/preview/"@ + pkg.name + "-"@ + pkg.version + ".tar.gz"@
}

/// Builds the deterministic download URL for a package: the registry prefix,
/// then `{name}-{version}.tar.gz`.
pub fn package_url(pkg: &TypstCorePackage) -> (r: String)
    ensures
        r@ == spec_package_url(pkg@),
{
    let mut url = String::from_str("https://packages.typst.org/preview/");
    url.append(pkg.name.as_str());
    url.append("-");
    url.append(pkg.version.as_str());
    url.append(".tar.gz");
    proof {
        assert(url@ =~= spec_package_url(pkg@));
    }
    url
}

} // verus!
