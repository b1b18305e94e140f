use vstd::prelude::*;
use vstd::string::*;
use crate::scan::{parse_u32, parse_unsigned, split, split_chars, views};
use crate::text::chars_of;

verus! {

/// A release number `major.minor.patch`.
pub type VersionTriple = (nat, nat, nat);

/// The release number written in `v`: exactly three dot-separated parts,
/// each parsed as a `u32`.
pub open spec fn parse_version(v: Seq<char>) -> Option<VersionTriple> {
    let parts = split(v, '.');
    if parts.len() != 3 {
        None
    } else {
        match (
            parse_unsigned(parts[0], u32::MAX as nat),
            parse_unsigned(parts[1], u32::MAX as nat),
            parse_unsigned(parts[2], u32::MAX as nat),
        ) {
            (Some(a), Some(b), Some(c)) => Some((a, b, c)),
            _ => None,
        }
    }
}

/// Lexicographic order on release numbers: `a` comes strictly after `b`.
pub open spec fn triple_after(a: VersionTriple, b: VersionTriple) -> bool {
    ||| a.0 > b.0
    ||| a.0 == b.0 && a.1 > b.1
    ||| a.0 == b.0 && a.1 == b.1 && a.2 > b.2
}

/// `remote` names a later release than `current`; false when either is not
/// a well-formed release number.
pub open spec fn newer(remote: Seq<char>, current: Seq<char>) -> bool {
    match (parse_version(remote), parse_version(current)) {
        (Some(r), Some(c)) => triple_after(r, c),
        _ => false,
    }
}

fn parse_version_exec(v: &str) -> (r: Option<(u32, u32, u32)>)
    ensures
        match r {
            Some(t) => parse_version(v@) == Some((t.0 as nat, t.1 as nat, t.2 as nat)),
            None => parse_version(v@) is None,
        },
{
    let chars = chars_of(v);
    let parts = split_chars(&chars, '.');
    assert(views(parts@).len() == parts@.len());
    if parts.len() != 3 {
        return None;
    }
    assert(parts@[0]@ == split(v@, '.')[0]);
    assert(parts@[1]@ == split(v@, '.')[1]);
    assert(parts@[2]@ == split(v@, '.')[2]);
    let a = match parse_u32(&parts[0]) {
        Some(a) => a,
        None => return None,
    };
    let b = match parse_u32(&parts[1]) {
        Some(b) => b,
        None => return None,
    };
    let c = match parse_u32(&parts[2]) {
        Some(c) => c,
        None => return None,
    };
    Some((a, b, c))
}

/// Whether the release number `remote` is later than `current`; false when
/// either is not three dot-separated `u32` parts.
#[allow(non_snake_case)]
pub fn isNewer(remote: &str, current: &str) -> (b: bool)
    ensures
        b == newer(remote@, current@),
{
    match (parse_version_exec(remote), parse_version_exec(current)) {
        (Some(r), Some(c)) => {
            r.0 > c.0 || (r.0 == c.0 && r.1 > c.1) || (r.0 == c.0 && r.1 == c.1 && r.2 > c.2)
        },
        _ => false,
    }
}

/// The release to offer: `latest` when it is newer than `current`.
#[allow(non_snake_case)]
pub fn updateAvailable(latest: &str, current: &str) -> (r: Option<String>)
    ensures
        newer(latest@, current@) ==> r is Some && r->0@ == latest@,
        !newer(latest@, current@) ==> r is None,
{
    if isNewer(latest, current) {
        Some(String::from_str(latest))
    } else {
        None
    }
}

/// No release is newer than itself.
pub proof fn lemma_newer_irreflexive(v: Seq<char>)
    ensures
        !newer(v, v),
{
}

/// Of two releases, at most one is newer than the other.
pub proof fn lemma_newer_asymmetric(a: Seq<char>, b: Seq<char>)
    ensures
        !(newer(a, b) && newer(b, a)),
{
}

/// Being newer is transitive.
pub proof fn lemma_newer_transitive(a: Seq<char>, b: Seq<char>, c: Seq<char>)
    requires
        newer(a, b),
        newer(b, c),
    ensures
        newer(a, c),
{
}

} // verus!
