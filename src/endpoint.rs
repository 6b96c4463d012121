use vstd::prelude::*;
use crate::server::address_of;

verus! {

/// The whole text is a dotted quad of decimal octets, each 0 to 255.
pub const IPV4_PATTERN: &'static str = "^(([0-9]|[1-9][0-9]|1[0-9][0-9]|2[0-4][0-9]|25[0-5])\\.){3}([0-9]|[1-9][0-9]|1[0-9][0-9]|2[0-4][0-9]|25[0-5])$";

/// Whether the regular expression `pattern` matches somewhere in `text`.
pub uninterp spec fn regex_finds(pattern: Seq<char>, text: Seq<char>) -> bool;

/// Whether `pattern` is a regular expression that compiles.
pub uninterp spec fn regex_compiles(pattern: Seq<char>) -> bool;

/// Relies on `regex::Regex::new`, which compiles `pattern` or reports it
/// invalid, and `Regex::is_match`, which says whether the compiled pattern
/// matches anywhere in `text`.
#[verifier::external_body]
fn regex_search(pattern: &str, text: &str) -> (r: Option<bool>)
    ensures
        r is Some <==> regex_compiles(pattern@),
        r matches Some(b) ==> b == regex_finds(pattern@, text@),
{
    match regex::Regex::new(pattern) {
        Ok(re) => Some(re.is_match(text)),
        Err(_) => None,
    }
}

/// Why an endpoint was refused before any worker started.
#[derive(Clone, Copy, Debug, PartialEq, Eq, Structural)]
pub enum EndpointError {
    /// The host is not in dotted-quad form.
    InvalidEndpointFormat,
    /// The address pattern could not be compiled.
    PatternUnavailable,
}

/// Decides on an endpoint from the outcome of searching its host for a
/// dotted quad: the `ip:port` address when one was found.
pub fn endpoint_from_search(found: Option<bool>, ip: &String, port: &String) -> (r: Result<
    String,
    EndpointError,
>)
    ensures
        found == Some(true) ==> (r matches Ok(a) && a@ == address_of(ip@, port@)),
        found == Some(false) ==> r == Err::<String, EndpointError>(
            EndpointError::InvalidEndpointFormat,
        ),
        found is None ==> r == Err::<String, EndpointError>(EndpointError::PatternUnavailable),
{
    match found {
        Some(true) => {
            let address = ip.clone().concat(":").concat(port.as_str());
            proof {
                reveal_strlit(":");
            }
            assert(address@ =~= address_of(ip@, port@));
            Ok(address)
        },
        Some(false) => Err(EndpointError::InvalidEndpointFormat),
        None => Err(EndpointError::PatternUnavailable),
    }
}

/// Checks that the host of an endpoint is wholly a dotted quad and, when it holds one,
/// returns the `ip:port` address to bind.
pub fn validate_endpoint(ip: &String, port: &String) -> (r: Result<String, EndpointError>)
    ensures
        r matches Ok(a) ==> (a@ == address_of(ip@, port@) && regex_finds(IPV4_PATTERN@, ip@)),
        r == Err::<String, EndpointError>(EndpointError::InvalidEndpointFormat) ==> !regex_finds(
            IPV4_PATTERN@,
            ip@,
        ),
        r == Err::<String, EndpointError>(EndpointError::PatternUnavailable) <==> !regex_compiles(
            IPV4_PATTERN@,
        ),
        regex_compiles(IPV4_PATTERN@) ==> (r is Ok <==> regex_finds(IPV4_PATTERN@, ip@)),
{
    let found = regex_search(IPV4_PATTERN, ip.as_str());
    endpoint_from_search(found, ip, port)
}

} // verus!
