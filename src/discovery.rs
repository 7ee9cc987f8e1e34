//! Finding the tunnel interface and the default network device in the
//! output of the system's tools.
use vstd::prelude::*;

verus! {

/// The first capture group of the first match of `pattern` in `text`, as the
/// `regex` crate finds it; `None` without a match or a valid pattern.
pub uninterp spec fn regex_first_group(pattern: Seq<char>, text: Seq<char>) -> Option<Seq<char>>;

pub open spec fn same_option(r: Option<String>, s: Option<Seq<char>>) -> bool {
    match r {
        Some(x) => s == Some(x@),
        None => s is None,
    }
}

/// Relies on `regex::Regex::new` and `regex::Regex::captures`: the text of
/// group 1 of the leftmost match; the result depends on the pattern and the
/// text alone.
#[verifier::external_body]
fn first_group(pattern: &str, text: &str) -> (r: Option<String>)
    ensures
        same_option(r, regex_first_group(pattern@, text@)),
{
    let re = match regex::Regex::new(pattern) {
        Ok(re) => re,
        Err(_) => return None,
    };
    match re.captures(text) {
        Some(caps) => caps.get(1).map(|m| m.as_str().to_string()),
        None => None,
    }
}

pub open spec fn interface_pattern() -> Seq<char> {
    "interface: (\\w*).*"@
}

pub open spec fn default_route_pattern() -> Seq<char> {
    "default.*dev (\\w*).*"@
}

/// The name of the first interface in the output of `wg show`.
pub fn wireguard_interface_name(show_output: &str) -> (r: Option<String>)
    ensures
        same_option(r, regex_first_group(interface_pattern(), show_output@)),
{
    first_group("interface: (\\w*).*", show_output)
}

/// The device of the default route in the output of `ip route show default`.
pub fn default_device(route_output: &str) -> (r: Option<String>)
    ensures
        same_option(r, regex_first_group(default_route_pattern(), route_output@)),
{
    first_group("default.*dev (\\w*).*", route_output)
}

} // verus!
