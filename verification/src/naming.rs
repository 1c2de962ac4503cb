//! Identity and naming: deriving the NVMe Qualified Name of a subsystem
//! from a UUID, and parsing it back.

use vstd::prelude::*;
use vstd::string::*;
use crate::strings::str_eq;

verus! {

/// The fixed NQN prefix shared with peers.
pub open spec fn nqn_prefix() -> Seq<char> {
    "nqn.2019-05.io.openebs"@
}

/// The fixed NQN prefix, as a string slice.
pub fn nvme_nqn_prefix() -> (r: &'static str)
    ensures
        r@ == nqn_prefix(),
{
    "nqn.2019-05.io.openebs"
}

/// The fixed vendor model string installed on every subsystem.
pub fn nvme_controller_model_id() -> (r: &'static str)
    ensures
        r@ == "Mayastor NVMe controller"@,
{
    "Mayastor NVMe controller"
}

/// The NQN derived from a UUID: the fixed prefix, a colon, the UUID.
pub open spec fn spec_make_nqn(id: Seq<char>) -> Seq<char> {
    nqn_prefix() + seq![':'] + id
}

/// Makes an NQN from a UUID. Stable: the result depends on the UUID alone.
pub fn make_nqn(id: &str) -> (r: String)
    ensures
        r@ == spec_make_nqn(id@),
{
    let mut r = String::from_str(nvme_nqn_prefix());
    r.append(":");
    r.append(id);
    proof {
        reveal_strlit(":");
        assert(r@ =~= spec_make_nqn(id@));
    }
    r
}

/// The inverse of [`spec_make_nqn`]: the UUID, when the name carries the
/// fixed prefix followed by a colon.
pub open spec fn spec_parse_nqn(nqn: Seq<char>) -> Option<Seq<char>> {
    if nqn.len() > nqn_prefix().len() && nqn.take(nqn_prefix().len() as int) == nqn_prefix()
        && nqn[nqn_prefix().len() as int] == ':' {
        Some(nqn.skip(nqn_prefix().len() + 1 as int))
    } else {
        None
    }
}

/// Recovers the UUID from an NQN made by [`make_nqn`]; `None` when the
/// name does not carry the fixed prefix and a colon.
pub fn parse_nqn(nqn: &str) -> (r: Option<String>)
    ensures
        match r {
            Some(id) => spec_parse_nqn(nqn@) == Some(id@),
            None => spec_parse_nqn(nqn@) is None,
        },
{
    let prefix = nvme_nqn_prefix();
    let plen = prefix.unicode_len();
    let len = nqn.unicode_len();
    proof {
        reveal_strlit("nqn.2019-05.io.openebs");
    }
    if len <= plen {
        return None;
    }
    let head = nqn.substring_char(0, plen);
    if !str_eq(head, prefix) {
        return None;
    }
    if nqn.get_char(plen) != ':' {
        return None;
    }
    let tail = nqn.substring_char(plen + 1, len);
    Some(String::from_str(tail))
}

/// Making an NQN from a UUID and parsing it back always gives the UUID.
pub proof fn lemma_nqn_round_trip(id: Seq<char>)
    ensures
        spec_parse_nqn(spec_make_nqn(id)) == Some(id),
{
    let nqn = spec_make_nqn(id);
    assert(nqn.take(nqn_prefix().len() as int) =~= nqn_prefix());
    assert(nqn[nqn_prefix().len() as int] == ':');
    assert(nqn.skip(nqn_prefix().len() + 1 as int) =~= id);
}

} // verus!
