//! The claimed addresses of a request, taken from the first of three headers
//! that yields any.

use crate::list::{accepted, list_outcome, parse_value, rejected, CommaSeparated, ListError};
use crate::network::IpAddress;
use vstd::prelude::*;

verus! {

/// What `rfc7239::parse` makes of the value of a `forwarded` header: for each
/// element, in order, the address that its `for` parameter names, or `None`
/// where the element does not parse or names no address there.
pub uninterp spec fn forwarded_elements(header: Seq<char>) -> Seq<Option<IpAddress>>;

/// `rfc7239::parse`: the elements of a `forwarded` header, each reduced to the
/// address that its `for` parameter names; the address is read as a number
/// through `ipnetwork::IpNetwork::from`. The result is known here only by name.
#[verifier::external_body]
fn parse_forwarded(header: &str) -> (r: Vec<Option<IpAddress>>)
    ensures
        r@ == forwarded_elements(header@),
{
    let mut out = Vec::new();
    for element in rfc7239::parse(header) {
        out.push(match element {
            Ok(rfc7239::Forwarded { forwarded_for: Some(node), .. }) => match node.name {
                rfc7239::NodeName::Ip(ip) => Some(match ipnetwork::IpNetwork::from(ip) {
                    ipnetwork::IpNetwork::V4(net) => IpAddress::V4(net.ip().into()),
                    ipnetwork::IpNetwork::V6(net) => IpAddress::V6(net.ip().into()),
                }),
                _ => None,
            },
            _ => None,
        });
    }
    out
}

/// The addresses among the elements of a `forwarded` header, in order, where
/// an element that names no address in its `for` parameter is `None`.
pub open spec fn named_addresses<T>(nodes: Seq<Option<T>>) -> Seq<T>
    decreases nodes.len(),
{
    if nodes.len() == 0 {
        seq![]
    } else {
        let before = named_addresses(nodes.drop_last());
        match nodes.last() {
            Some(ip) => before.push(ip),
            None => before,
        }
    }
}

/// Collects the addresses that the elements of a `forwarded` header name.
pub fn forwarded_addresses<T: Copy>(nodes: &Vec<Option<T>>) -> (r: Vec<T>)
    ensures
        r@ == named_addresses(nodes@),
{
    let mut out: Vec<T> = Vec::new();
    let mut i: usize = 0;
    while i < nodes.len()
        invariant
            i <= nodes@.len(),
            out@ == named_addresses(nodes@.take(i as int)),
        decreases nodes@.len() - i,
    {
        assert(nodes@.take(i + 1).drop_last() =~= nodes@.take(i as int));
        match nodes[i] {
            Some(ip) => {
                out.push(ip);
            },
            None => {},
        }
        i += 1;
    }
    assert(nodes@.take(i as int) =~= nodes@);
    out
}

/// The text of a header, where the request has it.
pub open spec fn text_of(header: Option<&str>) -> Option<Seq<char>> {
    match header {
        Some(s) => Some(s@),
        None => None,
    }
}

/// Whether the list `value` may fail to parse.
pub open spec fn list_fails<T, E, F: Fn(&str) -> Result<T, E>>(parse: F, value: Seq<char>) -> bool {
    exists|err: ListError<E>| #[trigger]
        list_outcome(parse, value, Err::<Seq<T>, ListError<E>>(err))
}

/// Whether the single value `value` may fail to parse.
pub open spec fn value_fails<T, E, F: Fn(&str) -> Result<T, E>>(parse: F, value: Seq<char>) -> bool {
    exists|err: ListError<E>| #[trigger] rejected::<T, E, F>(parse, value, err)
}

/// Whether a list header gives nothing: it is absent, or it may fail to parse.
pub open spec fn list_yields_nothing<T, E, F: Fn(&str) -> Result<T, E>>(
    parse: F,
    header: Option<Seq<char>>,
) -> bool {
    header is None || list_fails::<T, E, F>(parse, header->0)
}

/// Whether a single value header gives nothing: it is absent, or it may fail
/// to parse.
pub open spec fn value_yields_nothing<T, E, F: Fn(&str) -> Result<T, E>>(
    parse: F,
    header: Option<Seq<char>>,
) -> bool {
    header is None || value_fails::<T, E, F>(parse, header->0)
}

/// Whether `claimed` may be what the three headers give. The address list
/// header comes first; where it gives nothing, the single address header;
/// where that gives nothing too, the addresses that the elements of the
/// `forwarded` header name; and nothing where that header is absent.
pub open spec fn claimed_outcome<E, F: Fn(&str) -> Result<IpAddress, E>>(
    parse: F,
    x_forwarded_for: Option<Seq<char>>,
    x_real_ip: Option<Seq<char>>,
    forwarded: Option<Seq<char>>,
    claimed: Seq<IpAddress>,
) -> bool {
    ||| x_forwarded_for is Some && list_outcome(
        parse,
        x_forwarded_for->0,
        Ok::<Seq<IpAddress>, ListError<E>>(claimed),
    )
    ||| {
        &&& list_yields_nothing::<IpAddress, E, F>(parse, x_forwarded_for)
        &&& x_real_ip is Some
        &&& claimed.len() == 1
        &&& accepted(parse, x_real_ip->0, claimed[0])
    }
    ||| {
        &&& list_yields_nothing::<IpAddress, E, F>(parse, x_forwarded_for)
        &&& value_yields_nothing::<IpAddress, E, F>(parse, x_real_ip)
        &&& claimed == match forwarded {
            Some(header) => named_addresses(forwarded_elements(header)),
            None => seq![],
        }
    }
}

/// Extracts the claimed addresses of a request from the values of its
/// `x-forwarded-for`, `x-real-ip` and `forwarded` headers. `parse` reads one
/// address.
pub fn get_forwarded_for<E, F: Fn(&str) -> Result<IpAddress, E>>(
    x_forwarded_for: Option<&str>,
    x_real_ip: Option<&str>,
    forwarded: Option<&str>,
    parse: &F,
) -> (r: Vec<IpAddress>)
    requires
        forall|t: &str| call_requires(*parse, (t,)),
    ensures
        claimed_outcome(
            *parse,
            text_of(x_forwarded_for),
            text_of(x_real_ip),
            text_of(forwarded),
            r@,
        ),
{
    if let Some(value) = x_forwarded_for {
        match CommaSeparated::from_str(value, parse) {
            Ok(list) => {
                return list.into_inner();
            },
            Err(err) => {
                assert(list_outcome(*parse, value@, Err::<Seq<IpAddress>, ListError<E>>(err)));
                assert(list_fails::<IpAddress, E, F>(*parse, value@));
            },
        }
    }
    if let Some(value) = x_real_ip {
        match parse_value(value, parse) {
            Ok(ip) => {
                return vec![ip];
            },
            Err(err) => {
                assert(rejected::<IpAddress, E, F>(*parse, value@, err));
                assert(value_fails::<IpAddress, E, F>(*parse, value@));
            },
        }
    }
    match forwarded {
        Some(header) => forwarded_from(header),
        None => Vec::new(),
    }
}

/// The addresses that the elements of the `forwarded` header `header` name.
pub fn forwarded_from(header: &str) -> (r: Vec<IpAddress>)
    ensures
        r@ == named_addresses(forwarded_elements(header@)),
{
    let elements = parse_forwarded(header);
    forwarded_addresses(&elements)
}

} // verus!
