//! The path codec: the pure, deterministic mapping from a locator to the
//! relative filesystem path of its cache entry.
//!
//! The first component of a derived path names the scheme.  The in-memory
//! scheme appends its authority and path segments; the local-file scheme
//! encodes the OS path, rewriting drive-letter and UNC prefixes where the
//! target platform forbids colons in filenames; the network schemes
//! delegate to an external network-locator-to-filename transform, whose
//! result the caller hands in.  An unknown scheme, or a local-file
//! locator with no valid OS path, derives nothing: absence, not an error.

use vstd::prelude::*;

use crate::host::{host_norm, normalized_host};
use crate::locator::{
    file_component, port_marker, unc_marker, wasm_component, LocalPath, Locator, PathPrefix, Scheme,
};
use crate::paths::{compose_extension, RelPath};
use crate::strnum::{dec_rep, push_decimal, replace_colons, replace_colons_ascii};

verus! {

/// The authority component of the in-memory scheme: the host alone, or,
/// when a port is present, `<host>_PORT<port>`.
pub open spec fn wasm_authority(host: Seq<char>, port: Option<u16>) -> Seq<char> {
    match port {
        Some(p) => host + port_marker() + dec_rep(p as nat),
        None => host,
    }
}

/// The components a local path's prefix contributes.  With prefix
/// encoding off (POSIX-style targets) a prefix contributes nothing.
/// With it on, a drive letter becomes its own single-letter component,
/// and a UNC prefix becomes a literal marker, the normalized server name
/// with colons replaced by underscores, and the share name; a server
/// name that host parsing rejects makes the whole derivation fail.
pub open spec fn prefix_components(prefix: PathPrefix, windows_prefixes: bool) -> Option<
    Seq<Seq<char>>,
> {
    if !windows_prefixes {
        Some(Seq::empty())
    } else {
        match prefix {
            PathPrefix::Slash => Some(Seq::empty()),
            PathPrefix::Disk(d) => Some(seq![d@]),
            PathPrefix::Unc(server, share) => match host_norm(server@) {
                Some(h) => Some(seq![unc_marker(), replace_colons(h), share@]),
                None => None,
            },
        }
    }
}

/// The relative path derived from a locator, or `None` when the locator
/// maps to no cache path.  `remote` is the result of the external
/// network-locator-to-filename transform for this locator; it decides
/// the outcome for the network schemes and is ignored for every other.
pub open spec fn base_path(l: Locator, windows_prefixes: bool, remote: Option<Seq<Seq<char>>>) -> Option<
    Seq<Seq<char>>,
> {
    match l.scheme {
        Scheme::Wasm => match l.host {
            Some(h) => Some(
                seq![wasm_component(), wasm_authority(h@, l.port)] + l.segments.deep_view(),
            ),
            None => None,
        },
        Scheme::Http => remote,
        Scheme::Https => remote,
        Scheme::Data => remote,
        Scheme::File => match l.local {
            Some(lp) => match prefix_components(lp.prefix, windows_prefixes) {
                Some(pre) => Some(seq![file_component()] + pre + lp.segments.deep_view()),
                None => None,
            },
            None => None,
        },
        Scheme::Other => None,
    }
}

/// The derived path with the extension-append policy applied to its
/// final component.
pub open spec fn extended_path(p: Seq<Seq<char>>, ext: Seq<char>) -> Seq<Seq<char>> {
    if p.len() > 0 {
        p.update(p.len() - 1, compose_extension(p.last(), ext))
    } else {
        p
    }
}

/// The relative path derived from a locator with an appended extension,
/// or `None` when no base path can be derived.
pub open spec fn path_with_extension(
    l: Locator,
    windows_prefixes: bool,
    remote: Option<Seq<Seq<char>>>,
    ext: Seq<char>,
) -> Option<Seq<Seq<char>>> {
    match base_path(l, windows_prefixes, remote) {
        Some(p) => Some(extended_path(p, ext)),
        None => None,
    }
}

/// The view of an optional relative path.
pub open spec fn opt_path_view(r: Option<RelPath>) -> Option<Seq<Seq<char>>> {
    match r {
        Some(p) => Some(p@),
        None => None,
    }
}

/// Appends every segment, in order, as its own path component.
fn push_segments(out: &mut RelPath, segs: &Vec<String>)
    ensures
        final(out)@ == old(out)@ + segs.deep_view(),
{
    let mut i: usize = 0;
    while i < segs.len()
        invariant
            i <= segs@.len(),
            out@ =~= old(out)@ + segs.deep_view().subrange(0, i as int),
        decreases segs@.len() - i,
    {
        out.push(segs[i].clone());
        assert(out@ =~= old(out)@ + segs.deep_view().subrange(0, i + 1));
        i = i + 1;
    }
    assert(out@ =~= old(out)@ + segs.deep_view());
}

/// The authority component of the in-memory scheme.
fn wasm_authority_component(host: &String, port: &Option<u16>) -> (r: String)
    ensures
        r@ == wasm_authority(host@, *port),
{
    match port {
        Some(p) => {
            proof {
                reveal_strlit("_PORT");
            }
            let mut s = host.clone();
            s.append("_PORT");
            assert(s@ =~= host@ + port_marker());
            push_decimal(&mut s, *p);
            s
        },
        None => host.clone(),
    }
}

/// Derives the relative cache path of a locator, or returns `None` when
/// the locator maps to none: its scheme is unknown, its local-file path
/// cannot be converted, or the network transform gave nothing.  `remote`
/// is the external network-locator-to-filename transform's result for
/// this locator; `windows_prefixes` says whether the target platform
/// needs drive-letter and UNC prefixes rewritten into plain components.
pub fn derive_base_path(l: &Locator, windows_prefixes: bool, remote: Option<RelPath>) -> (r:
    Option<RelPath>)
    requires
        l.wf(),
    ensures
        opt_path_view(r) == base_path(*l, windows_prefixes, opt_path_view(remote)),
{
    match l.scheme {
        Scheme::Wasm => {
            proof {
                reveal_strlit("wasm");
            }
            let mut out = RelPath::empty();
            let scheme_comp = String::from_str("wasm");
            assert(scheme_comp@ =~= wasm_component());
            out.push(scheme_comp);
            match &l.host {
                Some(h) => {
                    out.push(wasm_authority_component(h, &l.port));
                    push_segments(&mut out, &l.segments);
                    assert(out@ =~= seq![wasm_component(), wasm_authority(h@, l.port)]
                        + l.segments.deep_view());
                    Some(out)
                },
                None => {
                    // excluded by well-formedness
                    None
                },
            }
        },
        Scheme::Http => remote,
        Scheme::Https => remote,
        Scheme::Data => remote,
        Scheme::File => {
            match &l.local {
                None => None,
                Some(lp) => {
                    proof {
                        reveal_strlit("file");
                    }
                    let mut out = RelPath::empty();
                    let scheme_comp = String::from_str("file");
                    assert(scheme_comp@ =~= file_component());
                    out.push(scheme_comp);
                    if windows_prefixes {
                        match &lp.prefix {
                            PathPrefix::Slash => {},
                            PathPrefix::Disk(d) => {
                                out.push(d.clone());
                            },
                            PathPrefix::Unc(server, share) => {
                                match normalized_host(server.as_str()) {
                                    None => {
                                        return None;
                                    },
                                    Some(h) => {
                                        proof {
                                            reveal_strlit("UNC");
                                        }
                                        let marker = String::from_str("UNC");
                                        assert(marker@ =~= unc_marker());
                                        out.push(marker);
                                        out.push(replace_colons_ascii(h.as_str()));
                                        out.push(share.clone());
                                    },
                                }
                            },
                        }
                    }
                    push_segments(&mut out, &lp.segments);
                    assert(out@ =~= seq![file_component()]
                        + prefix_components(lp.prefix, windows_prefixes).unwrap()
                        + lp.segments.deep_view());
                    Some(out)
                },
            }
        },
        Scheme::Other => None,
    }
}

/// Why a derived base path is never empty: the codec's own schemes put
/// the scheme name first, and the network transform hands back a real
/// path.
proof fn lemma_base_path_nonempty(
    l: Locator,
    windows_prefixes: bool,
    remote: Option<Seq<Seq<char>>>,
)
    requires
        remote matches Some(p) ==> p.len() > 0,
        base_path(l, windows_prefixes, remote) is Some,
    ensures
        base_path(l, windows_prefixes, remote) matches Some(p) ==> p.len() > 0,
{
}

/// Derives the relative cache path of a locator and applies the
/// extension-append policy to its final component; `None` exactly when
/// [`derive_base_path`] derives nothing.  A non-empty `remote` is a real
/// path, as the network transform's contract promises.
pub fn derive_path_with_extension(
    l: &Locator,
    windows_prefixes: bool,
    remote: Option<RelPath>,
    ext: &str,
) -> (r: Option<RelPath>)
    requires
        l.wf(),
        remote matches Some(p) ==> p@.len() > 0,
    ensures
        opt_path_view(r) == path_with_extension(*l, windows_prefixes, opt_path_view(remote), ext@),
{
    let ghost remote_v = opt_path_view(remote);
    match derive_base_path(l, windows_prefixes, remote) {
        None => None,
        Some(base) => {
            proof {
                lemma_base_path_nonempty(*l, windows_prefixes, remote_v);
            }
            Some(base.with_extension(ext))
        },
    }
}

/// Deriving a path is a pure function of the locator, the platform flag,
/// and the network transform's result: two derivations from the same
/// inputs always agree.
pub proof fn lemma_derivation_deterministic(
    l: Locator,
    windows_prefixes: bool,
    remote: Option<Seq<Seq<char>>>,
    r1: Option<Seq<Seq<char>>>,
    r2: Option<Seq<Seq<char>>>,
)
    requires
        r1 == base_path(l, windows_prefixes, remote),
        r2 == base_path(l, windows_prefixes, remote),
    ensures
        r1 == r2,
{
}

/// Two locators of different schemes, each of a scheme the codec encodes
/// itself (the in-memory and the local-file scheme), derive paths whose
/// first components differ: the first component is the scheme's name.
pub proof fn lemma_distinct_schemes_distinct_first(
    l1: Locator,
    l2: Locator,
    windows_prefixes: bool,
    rem1: Option<Seq<Seq<char>>>,
    rem2: Option<Seq<Seq<char>>>,
    p1: Seq<Seq<char>>,
    p2: Seq<Seq<char>>,
)
    requires
        l1.scheme is Wasm || l1.scheme is File,
        l2.scheme is Wasm || l2.scheme is File,
        l1.scheme != l2.scheme,
        base_path(l1, windows_prefixes, rem1) == Some(p1),
        base_path(l2, windows_prefixes, rem2) == Some(p2),
    ensures
        p1[0] != p2[0],
{
    assert(wasm_component()[0] == 'w');
    assert(file_component()[0] == 'f');
    assert(wasm_component() != file_component());
    if l1.scheme is Wasm {
        assert(p1[0] == wasm_component());
        assert(p2[0] == file_component());
    } else {
        assert(p1[0] == file_component());
        assert(p2[0] == wasm_component());
    }
}

} // verus!
